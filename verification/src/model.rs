use vstd::prelude::*;

verus! {

/// A port record: a named geographic/logistics location with optional
/// metadata. No field is validated beyond its structure; an absent optional
/// field is `None`, never an empty string.
///
/// Coordinates are carried as the IEEE-754 bit patterns of latitude and
/// longitude, in that order; callers that work in floating point convert
/// with `f64::to_bits` / `f64::from_bits`.
#[derive(Debug, PartialEq)]
pub struct Port {
    pub name: String,
    pub code: Option<String>,
    pub city: String,
    pub country: String,
    pub alias: Vec<String>,
    pub regions: Vec<String>,
    pub coordinates: Option<Vec<u64>>,
    pub province: Option<String>,
    pub timezone: Option<String>,
    pub unlocs: Vec<String>,
}

/// The mathematical value of a `Port`: each field as a plain value or a
/// sequence. Contracts compare ports by this view, field for field.
pub ghost struct PortView {
    pub name: Seq<char>,
    pub code: Option<Seq<char>>,
    pub city: Seq<char>,
    pub country: Seq<char>,
    pub alias: Seq<Seq<char>>,
    pub regions: Seq<Seq<char>>,
    pub coordinates: Option<Seq<u64>>,
    pub province: Option<Seq<char>>,
    pub timezone: Option<Seq<char>>,
    pub unlocs: Seq<Seq<char>>,
}

impl View for Port {
    type V = PortView;

    open spec fn view(&self) -> PortView {
        PortView {
            name: self.name.deep_view(),
            code: self.code.deep_view(),
            city: self.city.deep_view(),
            country: self.country.deep_view(),
            alias: self.alias.deep_view(),
            regions: self.regions.deep_view(),
            coordinates: self.coordinates.deep_view(),
            province: self.province.deep_view(),
            timezone: self.timezone.deep_view(),
            unlocs: self.unlocs.deep_view(),
        }
    }
}

impl DeepView for Port {
    type V = PortView;

    open spec fn deep_view(&self) -> PortView {
        self.view()
    }
}

fn clone_opt_string(o: &Option<String>) -> (r: Option<String>)
    ensures
        r.deep_view() == o.deep_view(),
{
    match o {
        Some(s) => Some(s.clone()),
        None => None,
    }
}

fn clone_string_vec(v: &Vec<String>) -> (r: Vec<String>)
    ensures
        r.deep_view() == v.deep_view(),
{
    let r = v.clone();
    proof {
        assert forall|i: int| 0 <= i < v@.len() implies r@[i] == v@[i] by {
            assert(vstd::pervasive::cloned::<String>(v@[i], r@[i]));
        }
        assert(r@ =~= v@);
        assert(r.deep_view() =~= v.deep_view());
    }
    r
}

fn clone_opt_u64_vec(o: &Option<Vec<u64>>) -> (r: Option<Vec<u64>>)
    ensures
        r.deep_view() == o.deep_view(),
{
    match o {
        Some(v) => {
            let r = v.clone();
            proof {
                assert forall|i: int| 0 <= i < v@.len() implies r@[i] == v@[i] by {
                    assert(vstd::pervasive::cloned::<u64>(v@[i], r@[i]));
                }
                assert(r@ =~= v@);
            }
            Some(r)
        },
        None => None,
    }
}

impl Clone for Port {
    /// A clone carries the same view: every field is equal, including the
    /// absence of optional fields.
    fn clone(&self) -> (r: Self)
        ensures
            r@ == self@,
    {
        Port {
            name: self.name.clone(),
            code: clone_opt_string(&self.code),
            city: self.city.clone(),
            country: self.country.clone(),
            alias: clone_string_vec(&self.alias),
            regions: clone_string_vec(&self.regions),
            coordinates: clone_opt_u64_vec(&self.coordinates),
            province: clone_opt_string(&self.province),
            timezone: clone_opt_string(&self.timezone),
            unlocs: clone_string_vec(&self.unlocs),
        }
    }
}

} // verus!
