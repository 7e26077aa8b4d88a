//! The record-identity model: object-index masks, source plugins,
//! namespaced identifiers, and resolved record identities.

use vstd::prelude::*;

use crate::order::{
    bytes_eq, eq_under, lemma_lex_le_antisym, lemma_lex_le_total, lemma_lex_le_trans, lex_le,
    lex_le_exec, Ordered,
};
use crate::text::{fold_case, fold_key_of};

verus! {

/// Selects the low bits of a raw 32-bit form identifier that encode the
/// object index; the remaining high bits encode the mod index.
#[derive(Clone, Copy, PartialEq, Eq, Structural, Debug)]
pub enum ObjectIndexMask {
    Full,
    Medium,
    Small,
}

impl ObjectIndexMask {
    pub open spec fn spec_mask(self) -> u32 {
        match self {
            ObjectIndexMask::Full => 0x00FF_FFFF,
            ObjectIndexMask::Medium => 0x0000_FFFF,
            ObjectIndexMask::Small => 0x0000_0FFF,
        }
    }

    /// The mask's numeric value.
    pub fn mask(self) -> (r: u32)
        ensures
            r == self.spec_mask(),
    {
        match self {
            ObjectIndexMask::Full => 0x00FF_FFFF,
            ObjectIndexMask::Medium => 0x0000_FFFF,
            ObjectIndexMask::Small => 0x0000_0FFF,
        }
    }
}

impl core::convert::From<ObjectIndexMask> for u32 {
    fn from(mask: ObjectIndexMask) -> (r: u32) {
        mask.mask()
    }
}

impl vstd::std_specs::convert::FromSpecImpl<ObjectIndexMask> for u32 {
    open spec fn obeys_from_spec() -> bool {
        true
    }

    open spec fn from_spec(mask: ObjectIndexMask) -> u32 {
        mask.spec_mask()
    }
}

/// The mathematical value of a `SourcePlugin`: the case-folded name key and
/// the two masks.
pub struct SourcePluginV {
    pub name_key: Seq<u8>,
    pub mod_index_mask: u32,
    pub object_index_mask: u32,
}

/// A plugin that records can belong to: either the plugin being resolved
/// itself or one of its masters. Name comparisons everywhere this type is
/// used are case-insensitive, so only the case-folded name is kept.
#[derive(Debug)]
pub struct SourcePlugin {
    name_key: Vec<u8>,
    pub mod_index_mask: u32,
    pub object_index_mask: u32,
}

impl View for SourcePlugin {
    type V = SourcePluginV;

    closed spec fn view(&self) -> SourcePluginV {
        SourcePluginV {
            name_key: self.name_key@,
            mod_index_mask: self.mod_index_mask,
            object_index_mask: self.object_index_mask,
        }
    }
}

impl SourcePlugin {
    /// The source standing for the plugin being resolved itself; it owns no
    /// mod-index bits.
    pub fn parent(name: &str, object_index_mask: ObjectIndexMask) -> (r: SourcePlugin)
        ensures
            r@ == (SourcePluginV {
                name_key: fold_key_of(name@),
                mod_index_mask: 0,
                object_index_mask: object_index_mask.spec_mask(),
            }),
    {
        SourcePlugin {
            name_key: fold_case(name),
            mod_index_mask: 0,
            object_index_mask: object_index_mask.mask(),
        }
    }

    /// One of the resolving plugin's masters, at the given slot of the
    /// mod-index space.
    pub fn master(name: &str, mod_index_mask: u32, object_index_mask: ObjectIndexMask) -> (r:
        SourcePlugin)
        ensures
            r@ == (SourcePluginV {
                name_key: fold_key_of(name@),
                mod_index_mask: mod_index_mask,
                object_index_mask: object_index_mask.spec_mask(),
            }),
    {
        SourcePlugin {
            name_key: fold_case(name),
            mod_index_mask,
            object_index_mask: object_index_mask.mask(),
        }
    }

    /// The case-folded name key.
    pub fn name_key(&self) -> (r: &Vec<u8>)
        ensures
            r@ == self@.name_key,
    {
        &self.name_key
    }
}

impl PartialEq for SourcePlugin {
    fn eq(&self, other: &SourcePlugin) -> (r: bool) {
        bytes_eq(&self.name_key, &other.name_key) && self.mod_index_mask == other.mod_index_mask
            && self.object_index_mask == other.object_index_mask
    }
}

impl vstd::std_specs::cmp::PartialEqSpecImpl for SourcePlugin {
    open spec fn obeys_eq_spec() -> bool {
        true
    }

    open spec fn eq_spec(&self, other: &SourcePlugin) -> bool {
        self@ == other@
    }
}

/// The mathematical value of a `NamespacedId`.
pub struct NamespacedIdV {
    pub record_tag: u32,
    pub editor_id_key: Seq<u8>,
}

/// A Morrowind record identity: the record's type tag together with its
/// case-folded editor identifier. Morrowind records carry no numeric form
/// identifier.
#[derive(Debug)]
pub struct NamespacedId {
    record_tag: u32,
    editor_id_key: Vec<u8>,
}

impl View for NamespacedId {
    type V = NamespacedIdV;

    closed spec fn view(&self) -> NamespacedIdV {
        NamespacedIdV { record_tag: self.record_tag, editor_id_key: self.editor_id_key@ }
    }
}

impl NamespacedId {
    /// Builds the identity of a record from its type tag (as a little-endian
    /// value) and its editor identifier; the editor identifier's case is
    /// folded away here, so equality and ordering are by value.
    pub fn new(record_tag: u32, editor_id: &str) -> (r: NamespacedId)
        ensures
            r@ == (NamespacedIdV {
                record_tag: record_tag,
                editor_id_key: fold_key_of(editor_id@),
            }),
    {
        NamespacedId { record_tag, editor_id_key: fold_case(editor_id) }
    }

    /// A copy of the identity.
    pub fn duplicate(&self) -> (r: NamespacedId)
        ensures
            r@ == self@,
    {
        NamespacedId {
            record_tag: self.record_tag,
            editor_id_key: crate::order::clone_bytes(&self.editor_id_key),
        }
    }

    /// Whether the two identities are the same record.
    pub fn same_id(&self, other: &NamespacedId) -> (r: bool)
        ensures
            r == (self@ == other@),
    {
        let r = self.record_tag == other.record_tag && bytes_eq(
            &self.editor_id_key,
            &other.editor_id_key,
        );
        r
    }
}

impl PartialEq for NamespacedId {
    fn eq(&self, other: &NamespacedId) -> (r: bool) {
        self.same_id(other)
    }
}

impl vstd::std_specs::cmp::PartialEqSpecImpl for NamespacedId {
    open spec fn obeys_eq_spec() -> bool {
        true
    }

    open spec fn eq_spec(&self, other: &NamespacedId) -> bool {
        self@ == other@
    }
}

impl Ordered for NamespacedId {
    open spec fn le(self, other: Self) -> bool {
        namespaced_le_v(self@, other@)
    }

    proof fn lemma_le_total(a: Self, b: Self) {
        if a@.record_tag == b@.record_tag {
            lemma_lex_le_total(a@.editor_id_key, b@.editor_id_key);
        }
    }

    proof fn lemma_le_trans(a: Self, b: Self, c: Self) {
        if a@.record_tag == b@.record_tag && b@.record_tag == c@.record_tag {
            lemma_lex_le_trans(a@.editor_id_key, b@.editor_id_key, c@.editor_id_key);
        }
    }

    fn le_exec(&self, other: &Self) -> (r: bool) {
        if self.record_tag < other.record_tag {
            true
        } else if self.record_tag == other.record_tag {
            lex_le_exec(&self.editor_id_key, &other.editor_id_key)
        } else {
            false
        }
    }
}

/// Two namespaced identities that the order treats as equal are the same
/// record.
pub proof fn lemma_namespaced_eq_under(a: NamespacedId, b: NamespacedId)
    ensures
        eq_under(a, b) <==> a@ == b@,
{
    if eq_under(a, b) {
        lemma_lex_le_antisym(a@.editor_id_key, b@.editor_id_key);
        assert(a@ =~= b@);
    }
    if a@ == b@ {
        lemma_lex_le_total(a@.editor_id_key, a@.editor_id_key);
    }
}

/// The mathematical value of a `ResolvedRecordId`.
pub struct ResolvedIdV {
    pub key: Seq<u8>,
    pub object_index: u32,
    pub is_overridden: bool,
}

/// A globally comparable record identity. For games with numeric form
/// identifiers the key is the case-folded name of the plugin that defines
/// the record and the index is the object-index portion of the identifier;
/// for Morrowind the key is the record's case-folded editor identifier and
/// the index slot carries the record's type tag. The flag says whether the
/// record overrides one defined by a master; ordering and equality ignore
/// it.
#[derive(Debug)]
pub struct ResolvedRecordId {
    key: Vec<u8>,
    object_index: u32,
    is_overridden: bool,
}

impl View for ResolvedRecordId {
    type V = ResolvedIdV;

    closed spec fn view(&self) -> ResolvedIdV {
        ResolvedIdV {
            key: self.key@,
            object_index: self.object_index,
            is_overridden: self.is_overridden,
        }
    }
}

/// The first source whose mod-index mask equals the given mod index.
pub open spec fn spec_find_master(masters: Seq<SourcePluginV>, mod_index: u32) -> Option<
    SourcePluginV,
>
    decreases masters.len(),
{
    if masters.len() == 0 {
        None
    } else if masters[0].mod_index_mask == mod_index {
        Some(masters[0])
    } else {
        spec_find_master(masters.skip(1), mod_index)
    }
}

/// How a raw form identifier resolves against a parent and its masters: the
/// parent's object-index mask splits the identifier into a mod index and an
/// object index; a master whose mod-index mask equals the mod index owns the
/// record (an override), otherwise the record is new and the parent owns it.
pub open spec fn spec_resolve_form_id(
    parent: SourcePluginV,
    masters: Seq<SourcePluginV>,
    raw: u32,
) -> ResolvedIdV {
    let object_index = raw & parent.object_index_mask;
    let mod_index = raw & !parent.object_index_mask;
    match spec_find_master(masters, mod_index) {
        Some(m) => ResolvedIdV {
            key: m.name_key,
            object_index: object_index & m.object_index_mask,
            is_overridden: true,
        },
        None => ResolvedIdV {
            key: parent.name_key,
            object_index: object_index,
            is_overridden: false,
        },
    }
}

/// How a namespaced identifier resolves against the union of the masters'
/// identifiers: the record is an override exactly when some master defines
/// the same identity.
pub open spec fn spec_resolve_namespaced_id(id: NamespacedIdV, master_ids: Seq<NamespacedIdV>)
    -> ResolvedIdV {
    ResolvedIdV {
        key: id.editor_id_key,
        object_index: id.record_tag,
        is_overridden: master_ids.contains(id),
    }
}

/// The views of a list of sources.
pub open spec fn views_of_sources(masters: Seq<SourcePlugin>) -> Seq<SourcePluginV> {
    masters.map_values(|m: SourcePlugin| m@)
}

/// The views of a list of namespaced identities.
pub open spec fn views_of_namespaced(ids: Seq<NamespacedId>) -> Seq<NamespacedIdV> {
    ids.map_values(|m: NamespacedId| m@)
}

proof fn lemma_spec_find_master_skip(masters: Seq<SourcePluginV>, mod_index: u32, i: int)
    requires
        0 <= i <= masters.len(),
        forall|j: int| 0 <= j < i ==> masters[j].mod_index_mask != mod_index,
    ensures
        spec_find_master(masters, mod_index) == spec_find_master(masters.skip(i), mod_index),
    decreases i,
{
    if i == 0 {
        assert(masters.skip(0) =~= masters);
    } else {
        lemma_spec_find_master_skip(masters.skip(1), mod_index, i - 1);
        assert(masters.skip(1).skip(i - 1) =~= masters.skip(i));
    }
}

impl ResolvedRecordId {
    /// Whether this record overrides a record defined by a master.
    pub fn is_overridden_record(&self) -> (r: bool)
        ensures
            r == self@.is_overridden,
    {
        self.is_overridden
    }

    /// Whether the object index lies inside the inclusive range.
    pub fn is_object_index_in(&self, min: u32, max: u32) -> (r: bool)
        ensures
            r == (min <= self@.object_index <= max),
    {
        min <= self.object_index && self.object_index <= max
    }

    /// Resolves a raw form identifier against the parent plugin and its
    /// masters.
    pub fn from_form_id(parent: &SourcePlugin, masters: &Vec<SourcePlugin>, raw: u32) -> (r:
        ResolvedRecordId)
        ensures
            r@ == spec_resolve_form_id(parent@, views_of_sources(masters@), raw),
    {
        let object_index = raw & parent.object_index_mask;
        let mod_index = raw & !parent.object_index_mask;
        let ghost mviews = views_of_sources(masters@);
        let mut i: usize = 0;
        while i < masters.len()
            invariant
                i <= masters@.len(),
                mviews == views_of_sources(masters@),
                object_index == raw & parent@.object_index_mask,
                mod_index == raw & !parent@.object_index_mask,
                forall|j: int| 0 <= j < i ==> mviews[j].mod_index_mask != mod_index,
            decreases masters@.len() - i,
        {
            if masters[i].mod_index_mask == mod_index {
                proof {
                    lemma_spec_find_master_skip(mviews, mod_index, i as int);
                    assert(mviews[i as int] == masters@[i as int]@);
                    assert(mviews.skip(i as int)[0] == mviews[i as int]);
                    assert(spec_find_master(mviews, mod_index) == Some(mviews[i as int]));
                }
                return ResolvedRecordId {
                    key: crate::order::clone_bytes(masters[i].name_key()),
                    object_index: object_index & masters[i].object_index_mask,
                    is_overridden: true,
                };
            }
            i += 1;
        }
        proof {
            lemma_spec_find_master_skip(mviews, mod_index, i as int);
            assert(mviews.skip(i as int) =~= Seq::<SourcePluginV>::empty());
            assert(spec_find_master(mviews, mod_index) is None);
        }
        ResolvedRecordId {
            key: crate::order::clone_bytes(parent.name_key()),
            object_index: object_index,
            is_overridden: false,
        }
    }

    /// Resolves a namespaced identifier against the union of the masters'
    /// identifiers.
    pub fn from_namespaced_id(id: &NamespacedId, master_ids: &Vec<NamespacedId>) -> (r:
        ResolvedRecordId)
        ensures
            r@ == spec_resolve_namespaced_id(id@, views_of_namespaced(master_ids@)),
    {
        let ghost mviews = views_of_namespaced(master_ids@);
        let mut found = false;
        let mut i: usize = 0;
        while i < master_ids.len()
            invariant
                i <= master_ids@.len(),
                mviews == views_of_namespaced(master_ids@),
                found == exists|j: int| 0 <= j < i && mviews[j] == id@,
            decreases master_ids@.len() - i,
        {
            if master_ids[i].same_id(id) {
                found = true;
                assert(mviews[i as int] == id@);
            }
            i += 1;
        }
        assert(found == mviews.contains(id@));
        ResolvedRecordId {
            key: crate::order::clone_bytes(&id.editor_id_key),
            object_index: id.record_tag,
            is_overridden: found,
        }
    }
}

impl PartialEq for ResolvedRecordId {
    fn eq(&self, other: &ResolvedRecordId) -> (r: bool) {
        bytes_eq(&self.key, &other.key) && self.object_index == other.object_index
    }
}

impl vstd::std_specs::cmp::PartialEqSpecImpl for ResolvedRecordId {
    open spec fn obeys_eq_spec() -> bool {
        true
    }

    open spec fn eq_spec(&self, other: &ResolvedRecordId) -> bool {
        self@.key == other@.key && self@.object_index == other@.object_index
    }
}

impl Ordered for ResolvedRecordId {
    open spec fn le(self, other: Self) -> bool {
        resolved_le_v(self@, other@)
    }

    proof fn lemma_le_total(a: Self, b: Self) {
        if a@.key != b@.key {
            lemma_lex_le_total(a@.key, b@.key);
        }
    }

    proof fn lemma_le_trans(a: Self, b: Self, c: Self) {
        if a@.key == b@.key {
        } else if b@.key == c@.key {
        } else {
            lemma_lex_le_trans(a@.key, b@.key, c@.key);
            if a@.key == c@.key {
                lemma_lex_le_antisym(a@.key, b@.key);
            }
        }
    }

    fn le_exec(&self, other: &Self) -> (r: bool) {
        if bytes_eq(&self.key, &other.key) {
            self.object_index <= other.object_index
        } else {
            lex_le_exec(&self.key, &other.key)
        }
    }
}

/// Two resolved identities that the order treats as equal are the same
/// record: same key and same object index, whatever their override flags.
pub proof fn lemma_resolved_eq_under(a: ResolvedRecordId, b: ResolvedRecordId)
    ensures
        eq_under(a, b) <==> (a@.key == b@.key && a@.object_index == b@.object_index),
{
    if eq_under(a, b) {
        if a@.key != b@.key {
            lemma_lex_le_antisym(a@.key, b@.key);
        }
    }
}

/// The order on resolved identity values: by key, then by object index.
pub open spec fn resolved_le_v(a: ResolvedIdV, b: ResolvedIdV) -> bool {
    if a.key == b.key {
        a.object_index <= b.object_index
    } else {
        lex_le(a.key, b.key)
    }
}

/// `resolved_le_v` as a function value, so that every use names the same
/// function.
pub open spec fn resolved_le_vfn() -> spec_fn(ResolvedIdV, ResolvedIdV) -> bool {
    |a: ResolvedIdV, b: ResolvedIdV| resolved_le_v(a, b)
}

/// The order on namespaced identity values: by record tag, then by editor
/// identifier.
pub open spec fn namespaced_le_v(a: NamespacedIdV, b: NamespacedIdV) -> bool {
    a.record_tag < b.record_tag || (a.record_tag == b.record_tag && lex_le(
        a.editor_id_key,
        b.editor_id_key,
    ))
}

/// `namespaced_le_v` as a function value, so that every use names the same
/// function.
pub open spec fn namespaced_le_vfn() -> spec_fn(NamespacedIdV, NamespacedIdV) -> bool {
    |a: NamespacedIdV, b: NamespacedIdV| namespaced_le_v(a, b)
}

/// The views of a list of resolved identities.
pub open spec fn views_of_resolved(ids: Seq<ResolvedRecordId>) -> Seq<ResolvedIdV> {
    ids.map_values(|m: ResolvedRecordId| m@)
}

/// Resolved identity values, sorted ascending.
pub open spec fn sort_resolved_v(s: Seq<ResolvedIdV>) -> Seq<ResolvedIdV> {
    crate::order::sort_by_insertion(s, resolved_le_vfn())
}

/// Namespaced identity values, sorted ascending.
pub open spec fn sort_namespaced_v(s: Seq<NamespacedIdV>) -> Seq<NamespacedIdV> {
    crate::order::sort_by_insertion(s, namespaced_le_vfn())
}

/// Sorting resolved identities and then taking their values is taking their
/// values and then sorting: the order reads nothing but the values.
pub proof fn lemma_sort_resolved_views(s: Seq<ResolvedRecordId>)
    ensures
        views_of_resolved(crate::order::sort_elems(s)) == sort_resolved_v(views_of_resolved(s)),
{
    let f = |m: ResolvedRecordId| m@;
    assert forall|a: ResolvedRecordId, b: ResolvedRecordId| #[trigger] crate::order::le_fn::<
        ResolvedRecordId,
    >()(a, b) == resolved_le_vfn()(f(a), f(b)) by {}
    crate::order::lemma_sort_by_insertion_map(
        s,
        crate::order::le_fn::<ResolvedRecordId>(),
        f,
        resolved_le_vfn(),
    );
}

/// Sorting namespaced identities and then taking their values is taking
/// their values and then sorting: the order reads nothing but the values.
pub proof fn lemma_sort_namespaced_views(s: Seq<NamespacedId>)
    ensures
        views_of_namespaced(crate::order::sort_elems(s)) == sort_namespaced_v(
            views_of_namespaced(s),
        ),
{
    let f = |m: NamespacedId| m@;
    assert forall|a: NamespacedId, b: NamespacedId| #[trigger] crate::order::le_fn::<
        NamespacedId,
    >()(a, b) == namespaced_le_vfn()(f(a), f(b)) by {}
    crate::order::lemma_sort_by_insertion_map(
        s,
        crate::order::le_fn::<NamespacedId>(),
        f,
        namespaced_le_vfn(),
    );
}

/// A sorted list of resolved identities, at the level of their values.
pub proof fn lemma_sorted_resolved_views(s: Seq<ResolvedRecordId>)
    ensures
        crate::order::sorted(s) <==> (forall|i: int, j: int|
            0 <= i < j < s.len() ==> #[trigger] resolved_le_v(s[i]@, s[j]@)),
{
    assert forall|i: int, j: int| 0 <= i < j < s.len() && crate::order::sorted(s) implies
        #[trigger] resolved_le_v(s[i]@, s[j]@) by {
        assert(s[i].le(s[j]));
    }
}

/// Copies a list of namespaced identities.
pub fn clone_namespaced_vec(v: &Vec<NamespacedId>) -> (r: Vec<NamespacedId>)
    ensures
        views_of_namespaced(r@) == views_of_namespaced(v@),
{
    let mut r: Vec<NamespacedId> = Vec::new();
    let mut i: usize = 0;
    proof {
        assert(views_of_namespaced(r@) =~= views_of_namespaced(v@).take(0));
    }
    while i < v.len()
        invariant
            i <= v@.len(),
            views_of_namespaced(r@) == views_of_namespaced(v@).take(i as int),
        decreases v@.len() - i,
    {
        r.push(v[i].duplicate());
        proof {
            assert(views_of_namespaced(v@).take(i + 1) =~= views_of_namespaced(v@).take(
                i as int,
            ).push(v@[i as int]@));
            assert(views_of_namespaced(r@) =~= views_of_namespaced(v@).take(i as int).push(
                v@[i as int]@,
            ));
        }
        i += 1;
    }
    proof {
        assert(views_of_namespaced(v@).take(v@.len() as int) =~= views_of_namespaced(v@));
    }
    r
}

/// Morrowind record identities are case-insensitive in the editor
/// identifier: two records with the same tag whose editor identifiers
/// case-fold alike carry the same identity and resolve to the same record.
pub proof fn lemma_namespaced_resolution_case_insensitive(
    tag: u32,
    e1: Seq<char>,
    e2: Seq<char>,
    union: Seq<NamespacedIdV>,
)
    ensures
        fold_key_of(e1) == fold_key_of(e2) ==> spec_resolve_namespaced_id(
            NamespacedIdV { record_tag: tag, editor_id_key: fold_key_of(e1) },
            union,
        ) == spec_resolve_namespaced_id(
            NamespacedIdV { record_tag: tag, editor_id_key: fold_key_of(e2) },
            union,
        ),
{
}

} // verus!
