//! The two-way map between player identifiers and names.
use crate::guid::Guid;
use vstd::prelude::*;

verus! {

/// bimap's map backed by two hash maps; what it holds is `bimap_pairs`.
#[verifier::external_type_specification]
#[verifier::external_body]
#[verifier::reject_recursive_types(L)]
#[verifier::reject_recursive_types(R)]
#[verifier::reject_recursive_types(LS)]
#[verifier::reject_recursive_types(RS)]
pub struct ExBiHashMap<L, R, LS, RS>(bimap::BiHashMap<L, R, LS, RS>);

/// Identifiers and names, each side unique.
pub type NameBiMap = bimap::BiHashMap<Guid, String>;

/// The pairs a bimap holds, each identifier by its bytes.
pub uninterp spec fn bimap_pairs(m: NameBiMap) -> Map<Seq<u8>, Seq<char>>;

/// Relies on `BiHashMap::new`: it starts empty.
#[verifier::external_body]
fn bimap_new() -> (r: NameBiMap)
    ensures
        bimap_pairs(r).dom() =~= Set::empty(),
{
    bimap::BiHashMap::new()
}

/// A map with the pair of identifier `g` and the pair of name `n` taken out.
pub open spec fn without_either(m: Map<Seq<u8>, Seq<char>>, g: Seq<u8>, n: Seq<char>) -> Map<
    Seq<u8>,
    Seq<char>,
> {
    Map::new(|k: Seq<u8>| m.dom().contains(k) && k != g && m[k] != n, |k: Seq<u8>| m[k])
}

/// No two identifiers share a name.
pub open spec fn injective(m: Map<Seq<u8>, Seq<char>>) -> bool {
    forall|a: Seq<u8>, b: Seq<u8>|
        m.dom().contains(a) && m.dom().contains(b) && #[trigger] m[a] == #[trigger] m[b] ==> a == b
}

/// Relies on `BiHashMap::contains_left`: whether the identifier has a pair.
#[verifier::external_body]
fn bimap_contains_left(m: &NameBiMap, g: &Guid) -> (r: bool)
    ensures
        r == bimap_pairs(*m).dom().contains(g.id@),
{
    m.contains_left(g)
}

/// Relies on `BiHashMap::contains_right`: whether the name has a pair.
#[verifier::external_body]
fn bimap_contains_right(m: &NameBiMap, name: &String) -> (r: bool)
    ensures
        r == bimap_pairs(*m).values().contains(name@),
{
    m.contains_right(name)
}

/// Relies on `BiHashMap::get_by_right`: the identifier paired with the name.
#[verifier::external_body]
fn bimap_get_by_right(m: &NameBiMap, name: &String) -> (r: Option<Guid>)
    ensures
        r is Some <==> bimap_pairs(*m).values().contains(name@),
        r matches Some(g) ==> bimap_pairs(*m).dom().contains(g.id@) && bimap_pairs(*m)[g.id@]
            == name@,
{
    m.get_by_right(name).copied()
}

/// Relies on `BiHashMap::insert`: it first removes the pair of the identifier
/// and the pair of the name, then adds the new pair.
#[verifier::external_body]
fn bimap_insert(m: &mut NameBiMap, g: Guid, name: String)
    ensures
        bimap_pairs(*final(m)) == without_either(bimap_pairs(*old(m)), g.id@, name@).insert(
            g.id@,
            name@,
        ),
{
    m.insert(g, name);
}

/// Relies on `BiHashMap::remove_by_left`: it removes the identifier's pair, if any.
#[verifier::external_body]
fn bimap_remove_by_left(m: &mut NameBiMap, g: &Guid)
    ensures
        bimap_pairs(*final(m)) == bimap_pairs(*old(m)).remove(g.id@),
{
    m.remove_by_left(g);
}

/// Registering a pair in an injective map leaves it injective.
pub proof fn lemma_insert_keeps_injective(m: Map<Seq<u8>, Seq<char>>, g: Seq<u8>, n: Seq<char>)
    requires
        injective(m),
    ensures
        injective(without_either(m, g, n).insert(g, n)),
{
    let w = without_either(m, g, n);
    let r = w.insert(g, n);
    assert forall|a: Seq<u8>, b: Seq<u8>|
        r.dom().contains(a) && r.dom().contains(b) && #[trigger] r[a] == #[trigger] r[b] implies a
        == b by {
        if a != g && b != g {
            assert(m[a] == r[a] && m[b] == r[b]);
        } else if a == g && b != g {
            assert(r[b] == m[b] && m[b] != n);
        } else if a != g && b == g {
            assert(r[a] == m[a] && m[a] != n);
        }
    }
}

/// Removing a pair leaves an injective map injective.
pub proof fn lemma_remove_keeps_injective(m: Map<Seq<u8>, Seq<char>>, g: Seq<u8>)
    requires
        injective(m),
    ensures
        injective(m.remove(g)),
{
    let r = m.remove(g);
    assert forall|a: Seq<u8>, b: Seq<u8>|
        r.dom().contains(a) && r.dom().contains(b) && #[trigger] r[a] == #[trigger] r[b] implies a
        == b by {
        assert(m[a] == r[a] && m[b] == r[b]);
    }
}

/// The lobby's names: each identifier with at most one name, each name with
/// at most one identifier.
#[derive(Debug)]
pub struct NameMap {
    pub map: NameBiMap,
}

impl View for NameMap {
    type V = Map<Seq<u8>, Seq<char>>;

    open spec fn view(&self) -> Map<Seq<u8>, Seq<char>> {
        bimap_pairs(self.map)
    }
}

impl NameMap {
    pub fn new() -> (r: NameMap)
        ensures
            r@.dom() == Set::<Seq<u8>>::empty(),
            injective(r@),
    {
        NameMap { map: bimap_new() }
    }

    pub fn contains_guid(&self, g: &Guid) -> (r: bool)
        ensures
            r == self@.dom().contains(g.id@),
    {
        bimap_contains_left(&self.map, g)
    }

    pub fn contains_name(&self, name: &String) -> (r: bool)
        ensures
            r == self@.values().contains(name@),
    {
        bimap_contains_right(&self.map, name)
    }

    /// The identifier registered under a name.
    pub fn guid_of(&self, name: &String) -> (r: Option<Guid>)
        ensures
            r is Some <==> self@.values().contains(name@),
            r matches Some(g) ==> self@.dom().contains(g.id@) && self@[g.id@] == name@,
    {
        bimap_get_by_right(&self.map, name)
    }

    /// Pairs `g` with `name`, dropping any earlier pair of either.
    pub fn register(&mut self, g: Guid, name: String)
        requires
            injective(old(self)@),
        ensures
            final(self)@ == without_either(old(self)@, g.id@, name@).insert(g.id@, name@),
            injective(final(self)@),
    {
        proof {
            lemma_insert_keeps_injective(self@, g.id@, name@);
        }
        bimap_insert(&mut self.map, g, name);
    }

    pub fn remove(&mut self, g: &Guid)
        requires
            injective(old(self)@),
        ensures
            final(self)@ == old(self)@.remove(g.id@),
            injective(final(self)@),
    {
        proof {
            lemma_remove_keeps_injective(self@, g.id@);
        }
        bimap_remove_by_left(&mut self.map, g);
    }
}

} // verus!
