//! The block registry: declarations of block identifiers, loaded in bulk from
//! a declaration file with per-entry failures that do not stop the load.
use vstd::prelude::*;
use vstd::string::StringExecFns;
use crate::block::{Block, BlockSize, MAX_BLOCK_ID};

verus! {

/// The fields of a declaration.
pub struct DeclarationView {
    pub group: Seq<char>,
    pub name: Seq<char>,
    pub color: (u8, u8, u8),
    pub transparency: u8,
}

/// Metadata of one block identifier: a group label, a display name, an RGB
/// colour and a transparency from 0 (opaque) to 255 (fully transparent).
#[derive(Debug)]
pub struct BlockDeclaration {
    group: String,
    name: String,
    color: (u8, u8, u8),
    transparency: u8,
}

impl View for BlockDeclaration {
    type V = DeclarationView;

    closed spec fn view(&self) -> DeclarationView {
        DeclarationView {
            group: self.group@,
            name: self.name@,
            color: self.color,
            transparency: self.transparency,
        }
    }
}

impl Clone for BlockDeclaration {
    fn clone(&self) -> (r: BlockDeclaration)
        ensures
            r == *self,
    {
        BlockDeclaration {
            group: self.group.clone(),
            name: self.name.clone(),
            color: self.color,
            transparency: self.transparency,
        }
    }
}

impl BlockDeclaration {
    /// A declaration with the given fields.
    pub fn new(group: String, name: String, color: (u8, u8, u8), transparency: u8) -> (r:
        BlockDeclaration)
        ensures
            r@ == (DeclarationView { group: group@, name: name@, color, transparency }),
    {
        BlockDeclaration { group, name, color, transparency }
    }

    /// Whether the block can be seen at all: it is not fully transparent.
    pub fn visible(&self) -> (r: bool)
        ensures
            r == (self@.transparency != 255),
    {
        self.transparency != 255
    }

    /// Whether the block hides what lies behind it: it is fully opaque.
    pub fn opaque(&self) -> (r: bool)
        ensures
            r == (self@.transparency == 0),
    {
        self.transparency == 0
    }

    /// The transparency, 0 (opaque) to 255 (fully transparent).
    pub fn transparency(&self) -> (r: u8)
        ensures
            r == self@.transparency,
    {
        self.transparency
    }

    /// The group label.
    pub fn group(&self) -> (r: &str)
        ensures
            r@ == self@.group,
    {
        self.group.as_str()
    }

    /// The display name.
    pub fn name(&self) -> (r: &str)
        ensures
            r@ == self@.name,
    {
        self.name.as_str()
    }

    /// The RGB colour.
    pub fn color(&self) -> (r: (u8, u8, u8))
        ensures
            r == self@.color,
    {
        self.color
    }
}

/// The decimal digit `d` as text.
pub open spec fn digit_text(d: int) -> Seq<char> {
    if d == 0 {
        "0"@
    } else if d == 1 {
        "1"@
    } else if d == 2 {
        "2"@
    } else if d == 3 {
        "3"@
    } else if d == 4 {
        "4"@
    } else if d == 5 {
        "5"@
    } else if d == 6 {
        "6"@
    } else if d == 7 {
        "7"@
    } else if d == 8 {
        "8"@
    } else {
        "9"@
    }
}

/// `n` written in decimal, without leading zeros.
pub open spec fn decimal(n: nat) -> Seq<char>
    decreases n,
{
    if n < 10 {
        digit_text(n as int)
    } else {
        decimal(n / 10) + digit_text((n % 10) as int)
    }
}

fn digit_str(d: usize) -> (r: &'static str)
    requires
        d < 10,
    ensures
        r@ == digit_text(d as int),
{
    match d {
        0 => "0",
        1 => "1",
        2 => "2",
        3 => "3",
        4 => "4",
        5 => "5",
        6 => "6",
        7 => "7",
        8 => "8",
        _ => "9",
    }
}

fn append_decimal(s: &mut String, n: usize)
    ensures
        final(s)@ == old(s)@ + decimal(n as nat),
    decreases n,
{
    if n >= 10 {
        append_decimal(s, n / 10);
    }
    s.append(digit_str(n % 10));
    assert(final(s)@ =~= old(s)@ + decimal(n as nat));
}

/// The reason recorded for an identifier past the largest block identifier.
pub open spec fn oversized_reason(id: nat) -> Seq<char> {
    "block id "@ + decimal(id) + " is larger than the largest block id 65535"@
}

fn oversized_reason_text(id: usize) -> (r: String)
    ensures
        r@ == oversized_reason(id as nat),
{
    let mut s = "block id ".to_owned();
    append_decimal(&mut s, id);
    s.append(" is larger than the largest block id 65535");
    s
}

/// A declaration that was left out of a registry, and why.
#[derive(Debug)]
pub struct FailedDeclaration {
    id: usize,
    subtype: Option<usize>,
    reason: String,
}

impl View for FailedDeclaration {
    type V = (usize, Option<usize>, Seq<char>);

    closed spec fn view(&self) -> (usize, Option<usize>, Seq<char>) {
        (self.id, self.subtype, self.reason@)
    }
}

impl FailedDeclaration {
    /// The identifier that was declared.
    pub fn id(&self) -> (r: usize)
        ensures
            r == self@.0,
    {
        self.id
    }

    /// The subtype the failure concerns, where it concerns one.
    pub fn subtype(&self) -> (r: Option<usize>)
        ensures
            r == self@.1,
    {
        self.subtype
    }

    /// A human-readable reason.
    pub fn reason(&self) -> (r: &str)
        ensures
            r@ == self@.2,
    {
        self.reason.as_str()
    }
}

/// A registry as mathematical values: the declaration of every identifier,
/// and the group index as (label, identifiers registered under it) pairs.
pub struct RegistryView {
    pub declarations: Seq<Option<BlockDeclaration>>,
    pub groups: Seq<(Seq<char>, Seq<BlockSize>)>,
}

/// Position of the group labelled `g` in the group index, or -1 where no
/// group has that label.
pub open spec fn group_index(groups: Seq<(Seq<char>, Seq<BlockSize>)>, g: Seq<char>) -> int {
    if exists|k: int| 0 <= k < groups.len() && groups[k].0 == g {
        choose|k: int| 0 <= k < groups.len() && groups[k].0 == g
    } else {
        -1
    }
}

/// No two groups share a label.
pub open spec fn labels_unique(groups: Seq<(Seq<char>, Seq<BlockSize>)>) -> bool {
    forall|i: int, j: int|
        0 <= i < groups.len() && 0 <= j < groups.len() && i != j ==> groups[i].0 != groups[j].0
}

/// The group index after registering `id` under the label `g`: a new group
/// is appended for an unknown label, and an identifier is listed once.
pub open spec fn add_to_group(
    groups: Seq<(Seq<char>, Seq<BlockSize>)>,
    g: Seq<char>,
    id: BlockSize,
) -> Seq<(Seq<char>, Seq<BlockSize>)> {
    let k = group_index(groups, g);
    if k < 0 {
        groups.push((g, seq![id]))
    } else if groups[k].1.contains(id) {
        groups
    } else {
        groups.update(k, (g, groups[k].1.push(id)))
    }
}

/// The declarations of the listed identifiers that are declared, and
/// declared in group `g`, in list order.
pub open spec fn declared_members(
    ids: Seq<BlockSize>,
    declarations: Seq<Option<BlockDeclaration>>,
    g: Seq<char>,
) -> Seq<BlockDeclaration>
    decreases ids.len(),
{
    if ids.len() == 0 {
        Seq::empty()
    } else {
        let before = declared_members(ids.drop_last(), declarations, g);
        match declarations[ids.last() as int] {
            Some(d) => if d@.group == g {
                before.push(d)
            } else {
                before
            },
            None => before,
        }
    }
}

impl RegistryView {
    /// The registry with no declaration and no group.
    pub open spec fn empty() -> RegistryView {
        RegistryView {
            declarations: Seq::new(MAX_BLOCK_ID as nat, |i: int| None),
            groups: Seq::empty(),
        }
    }

    /// The registry after setting the declaration of `id`; a declaration
    /// also registers `id` under its group.
    pub open spec fn with_declaration(self, id: BlockSize, declaration: Option<BlockDeclaration>) -> RegistryView {
        RegistryView {
            declarations: self.declarations.update(id as int, declaration),
            groups: match declaration {
                Some(d) => add_to_group(self.groups, d@.group, id),
                None => self.groups,
            },
        }
    }
}

/// Declarations indexed by block identifier, with an index from group label
/// to the identifiers registered under it.
pub struct BlockRegistry {
    registry: Vec<Option<BlockDeclaration>>,
    group_names: Vec<String>,
    group_members: Vec<Vec<BlockSize>>,
}

impl View for BlockRegistry {
    type V = RegistryView;

    closed spec fn view(&self) -> RegistryView {
        RegistryView {
            declarations: self.registry@,
            groups: Seq::new(
                self.group_names@.len(),
                |i: int| (self.group_names@[i]@, self.group_members@[i]@),
            ),
        }
    }
}

fn list_contains(ids: &Vec<BlockSize>, id: BlockSize) -> (r: bool)
    ensures
        r == ids@.contains(id),
{
    let mut i: usize = 0;
    while i < ids.len()
        invariant
            i <= ids.len(),
            forall|j: int| 0 <= j < i ==> ids@[j] != id,
        decreases ids.len() - i,
    {
        if ids[i] == id {
            return true;
        }
        i = i + 1;
    }
    false
}

impl BlockRegistry {
    /// One slot per identifier, and a group index with one list per label.
    pub closed spec fn well_formed(&self) -> bool {
        &&& self.registry@.len() == MAX_BLOCK_ID
        &&& self.group_names@.len() == self.group_members@.len()
        &&& labels_unique(self@.groups)
    }

    /// A registry with no declaration and no group.
    pub fn empty() -> (r: BlockRegistry)
        ensures
            r.well_formed(),
            r@ == RegistryView::empty(),
    {
        let mut registry: Vec<Option<BlockDeclaration>> = Vec::new();
        let mut i: usize = 0;
        while i < MAX_BLOCK_ID
            invariant
                i <= MAX_BLOCK_ID,
                registry@ == Seq::new(i as nat, |j: int| None::<BlockDeclaration>),
            decreases MAX_BLOCK_ID - i,
        {
            registry.push(None);
            i = i + 1;
        }
        let r = BlockRegistry { registry, group_names: Vec::new(), group_members: Vec::new() };
        assert(r@.groups =~= Seq::empty());
        r
    }

    /// The declaration of `block`, where it has one.
    pub fn declaration(&self, block: Block) -> (r: &Option<BlockDeclaration>)
        requires
            self.well_formed(),
        ensures
            *r == self@.declarations[block@ as int],
    {
        &self.registry[block.id() as usize]
    }

    fn find_group(&self, group: &String) -> (r: Option<usize>)
        requires
            self.well_formed(),
        ensures
            match r {
                Some(k) => k == group_index(self@.groups, group@) && k < self.group_names@.len(),
                None => group_index(self@.groups, group@) == -1,
            },
    {
        let mut k: usize = 0;
        while k < self.group_names.len()
            invariant
                self.well_formed(),
                k <= self.group_names@.len(),
                forall|j: int| 0 <= j < k ==> self@.groups[j].0 != group@,
            decreases self.group_names@.len() - k,
        {
            if self.group_names[k] == *group {
                assert(self@.groups[k as int].0 == group@);
                return Some(k);
            }
            k = k + 1;
        }
        None
    }

    /// Sets (or, with `None`, clears) the declaration of `index`; a
    /// declaration also registers `index` under its group.
    pub fn set_declaration(&mut self, index: BlockSize, declaration: Option<BlockDeclaration>)
        requires
            old(self).well_formed(),
        ensures
            final(self).well_formed(),
            final(self)@ == old(self)@.with_declaration(index, declaration),
    {
        let ghost groups0 = self@.groups;
        match &declaration {
            Some(d) => {
                match self.find_group(&d.group) {
                    None => {
                        let mut members: Vec<BlockSize> = Vec::new();
                        members.push(index);
                        assert(members@ =~= seq![index]);
                        self.group_names.push(d.group.clone());
                        self.group_members.push(members);
                        assert(self@.groups =~= add_to_group(groups0, d@.group, index));
                    },
                    Some(k) => {
                        if !list_contains(&self.group_members[k], index) {
                            self.group_members[k].push(index);
                        }
                        assert(self@.groups =~= add_to_group(groups0, d@.group, index));
                    },
                }
            },
            None => {},
        }
        self.registry.set(index as usize, declaration);
    }

    /// The declarations registered under `group` that still belong to it,
    /// or `None` where no identifier was ever registered under that label.
    pub fn blocks_in_group(&self, group: &String) -> (r: Option<Vec<&BlockDeclaration>>)
        requires
            self.well_formed(),
        ensures
            match r {
                None => group_index(self@.groups, group@) < 0,
                Some(v) => group_index(self@.groups, group@) >= 0 && v@.map_values(
                    |d: &BlockDeclaration| *d,
                ) == declared_members(
                    self@.groups[group_index(self@.groups, group@)].1,
                    self@.declarations,
                    group@,
                ),
            },
    {
        match self.find_group(group) {
            None => None,
            Some(k) => {
                let ids = &self.group_members[k];
                let mut grouped: Vec<&BlockDeclaration> = Vec::new();
                let mut j: usize = 0;
                while j < ids.len()
                    invariant
                        self.well_formed(),
                        k < self.group_members@.len(),
                        ids@ == self@.groups[k as int].1,
                        j <= ids@.len(),
                        grouped@.map_values(|d: &BlockDeclaration| *d) == declared_members(
                            ids@.subrange(0, j as int),
                            self@.declarations,
                            group@,
                        ),
                    decreases ids@.len() - j,
                {
                    assert(ids@.subrange(0, j + 1).drop_last() =~= ids@.subrange(0, j as int));
                    let id = ids[j];
                    match &self.registry[id as usize] {
                        Some(d) => {
                            if d.group == *group {
                                grouped.push(d);
                            }
                        },
                        None => {},
                    }
                    assert(grouped@.map_values(|d: &BlockDeclaration| *d) =~= declared_members(
                        ids@.subrange(0, j + 1),
                        self@.declarations,
                        group@,
                    ));
                    j = j + 1;
                }
                assert(ids@.subrange(0, ids@.len() as int) =~= ids@);
                Some(grouped)
            },
        }
    }
}

/// No two entries declare the same identifier.
pub open spec fn ids_unique(entries: Seq<(usize, BlockDeclaration)>) -> bool {
    forall|i: int, j: int|
        0 <= i < entries.len() && 0 <= j < entries.len() && i != j ==> entries[i].0 != entries[j].0
}

/// Whether `k` is the first entry declaring `id`.
pub open spec fn first_entry_of(entries: Seq<(usize, BlockDeclaration)>, id: usize, k: int) -> bool {
    &&& 0 <= k < entries.len()
    &&& entries[k].0 == id
    &&& forall|j: int| 0 <= j < k ==> entries[j].0 != id
}

/// The entries after declaring `id` as `declaration`: the first entry for
/// `id` is replaced where there is one, else a new entry is appended.
pub open spec fn insert_entry(
    entries: Seq<(usize, BlockDeclaration)>,
    id: usize,
    declaration: BlockDeclaration,
) -> Seq<(usize, BlockDeclaration)> {
    if exists|k: int| first_entry_of(entries, id, k) {
        entries.update(choose|k: int| first_entry_of(entries, id, k), (id, declaration))
    } else {
        entries.push((id, declaration))
    }
}

/// The registry after loading `entries` in order into `base`: each entry
/// whose identifier is below `MAX_BLOCK_ID` sets that identifier's
/// declaration; the others are left out.
pub open spec fn apply_entries(base: RegistryView, entries: Seq<(usize, BlockDeclaration)>) -> RegistryView
    decreases entries.len(),
{
    if entries.len() == 0 {
        base
    } else {
        let before = apply_entries(base, entries.drop_last());
        let (id, declaration) = entries.last();
        if id < MAX_BLOCK_ID {
            before.with_declaration(id as BlockSize, Some(declaration))
        } else {
            before
        }
    }
}

/// The failure records of loading `entries`, in entry order: one per entry
/// whose identifier is not below `MAX_BLOCK_ID`.
pub open spec fn failures_of(entries: Seq<(usize, BlockDeclaration)>) -> Seq<(usize, Option<usize>, Seq<char>)>
    decreases entries.len(),
{
    if entries.len() == 0 {
        Seq::empty()
    } else {
        let before = failures_of(entries.drop_last());
        let id = entries.last().0;
        if id >= MAX_BLOCK_ID {
            before.push((id, None, oversized_reason(id as nat)))
        } else {
            before
        }
    }
}

/// Loading declarations tolerates bad entries: every entry with an
/// identifier below `MAX_BLOCK_ID` is declared afterwards, identifiers that
/// no entry names keep their declaration, and each entry with an identifier
/// past the largest one is named by exactly one failure record, which is
/// all the failure records hold.
pub proof fn lemma_partial_tolerance(base: RegistryView, entries: Seq<(usize, BlockDeclaration)>)
    requires
        ids_unique(entries),
        base.declarations.len() == MAX_BLOCK_ID,
    ensures
        apply_entries(base, entries).declarations.len() == MAX_BLOCK_ID,
        forall|k: int|
            0 <= k < entries.len() && entries[k].0 < MAX_BLOCK_ID ==> apply_entries(
                base,
                entries,
            ).declarations[#[trigger] entries[k].0 as int] == Some(entries[k].1),
        forall|i: int|
            0 <= i < MAX_BLOCK_ID && (forall|k: int| 0 <= k < entries.len() ==> entries[k].0 != i)
                ==> apply_entries(base, entries).declarations[i] == base.declarations[i],
        forall|k: int|
            0 <= k < entries.len() && entries[k].0 >= MAX_BLOCK_ID ==> exists|j: int|
                0 <= j < failures_of(entries).len() && (#[trigger] failures_of(entries)[j]).0
                    == entries[k].0,
        forall|j: int|
            0 <= j < failures_of(entries).len() ==> (#[trigger] failures_of(entries)[j]).0
                >= MAX_BLOCK_ID && exists|k: int|
                0 <= k < entries.len() && entries[k].0 == failures_of(entries)[j].0,
        forall|j1: int, j2: int|
            0 <= j1 < failures_of(entries).len() && 0 <= j2 < failures_of(entries).len() && j1
                != j2 ==> (#[trigger] failures_of(entries)[j1]).0 != (#[trigger] failures_of(
                entries,
            )[j2]).0,
    decreases entries.len(),
{
    if entries.len() > 0 {
        let before = entries.drop_last();
        let last = entries.len() - 1;
        assert(ids_unique(before));
        lemma_partial_tolerance(base, before);
        let fb = failures_of(before);
        let f = failures_of(entries);
        assert forall|k: int|
            0 <= k < entries.len() && entries[k].0 >= MAX_BLOCK_ID implies exists|j: int|
                0 <= j < f.len() && (#[trigger] f[j]).0 == entries[k].0 by {
            if k < last {
                assert(before[k] == entries[k]);
                let j = choose|j: int| 0 <= j < fb.len() && (#[trigger] fb[j]).0 == before[k].0;
                assert(f[j] == fb[j]);
            } else {
                assert(f[f.len() - 1].0 == entries[k].0);
            }
        }
        assert forall|j: int| 0 <= j < f.len() implies (#[trigger] f[j]).0 >= MAX_BLOCK_ID
            && exists|k: int| 0 <= k < entries.len() && entries[k].0 == f[j].0 by {
            if j < fb.len() {
                assert(f[j] == fb[j]);
                let k = choose|k: int| 0 <= k < before.len() && before[k].0 == fb[j].0;
                assert(entries[k] == before[k]);
            } else {
                assert(entries[last].0 == f[j].0);
            }
        }
        assert forall|j1: int, j2: int|
            0 <= j1 < f.len() && 0 <= j2 < f.len() && j1 != j2 implies (#[trigger] f[j1]).0
            != (#[trigger] f[j2]).0 by {
            if j1 < fb.len() && j2 < fb.len() {
                assert(f[j1] == fb[j1] && f[j2] == fb[j2]);
            } else if j1 < fb.len() {
                assert(f[j1] == fb[j1]);
                let k = choose|k: int| 0 <= k < before.len() && before[k].0 == fb[j1].0;
                assert(entries[k] == before[k]);
            } else if j2 < fb.len() {
                assert(f[j2] == fb[j2]);
                let k = choose|k: int| 0 <= k < before.len() && before[k].0 == fb[j2].0;
                assert(entries[k] == before[k]);
            }
        }
        assert forall|k: int|
            0 <= k < entries.len() && entries[k].0 < MAX_BLOCK_ID implies apply_entries(
                base,
                entries,
            ).declarations[#[trigger] entries[k].0 as int] == Some(entries[k].1) by {
            if k < last {
                assert(before[k] == entries[k]);
            }
        }
        assert forall|i: int|
            0 <= i < MAX_BLOCK_ID && (forall|k: int| 0 <= k < entries.len() ==> entries[k].0 != i)
                implies apply_entries(base, entries).declarations[i] == base.declarations[i] by {
            assert(entries[last].0 != i);
            assert forall|k: int| 0 <= k < before.len() implies before[k].0 != i by {
                assert(before[k] == entries[k]);
            }
        }
    }
}

/// The contents of a declaration file: declarations keyed by identifier.
pub struct BlockRegistryFile {
    entries: Vec<(usize, BlockDeclaration)>,
}

impl View for BlockRegistryFile {
    type V = Seq<(usize, BlockDeclaration)>;

    closed spec fn view(&self) -> Seq<(usize, BlockDeclaration)> {
        self.entries@
    }
}

impl BlockRegistryFile {
    /// A file with no declaration.
    pub fn new() -> (r: BlockRegistryFile)
        ensures
            r@ == Seq::<(usize, BlockDeclaration)>::empty(),
    {
        BlockRegistryFile { entries: Vec::new() }
    }

    /// The entries, one per declared identifier.
    pub fn entries(&self) -> (r: &[(usize, BlockDeclaration)])
        ensures
            r@ == self@,
    {
        self.entries.as_slice()
    }

    /// Declares `id` as `declaration`, replacing an earlier declaration of
    /// the same identifier.
    pub fn insert(&mut self, id: usize, declaration: BlockDeclaration)
        ensures
            final(self)@ == insert_entry(old(self)@, id, declaration),
            ids_unique(old(self)@) ==> ids_unique(final(self)@),
    {
        let mut k: usize = 0;
        while k < self.entries.len()
            invariant
                k <= self.entries@.len(),
                self@ == old(self)@,
                forall|j: int| 0 <= j < k ==> self.entries@[j].0 != id,
            decreases self.entries@.len() - k,
        {
            if self.entries[k].0 == id {
                let ghost entries0 = self@;
                assert(first_entry_of(entries0, id, k as int));
                let ghost chosen = choose|j: int| first_entry_of(entries0, id, j);
                assert(chosen == k as int) by {
                    if chosen < k {
                        assert(entries0[chosen].0 != id);
                    } else if chosen > k {
                        assert(entries0[k as int].0 != id);
                    }
                }
                self.entries.set(k, (id, declaration));
                return;
            }
            k = k + 1;
        }
        self.entries.push((id, declaration));
        assert(forall|j: int| !first_entry_of(old(self)@, id, j));
        assert(ids_unique(old(self)@) ==> ids_unique(self@)) by {
            if ids_unique(old(self)@) {
                assert forall|i: int, j: int|
                    0 <= i < self@.len() && 0 <= j < self@.len() && i != j implies self@[i].0
                    != self@[j].0 by {
                    if i < old(self)@.len() && j < old(self)@.len() {
                        assert(self@[i] == old(self)@[i] && self@[j] == old(self)@[j]);
                    }
                }
            }
        }
    }

    /// Loads every declaration into `registry`, leaving out those whose
    /// identifier is past the largest block identifier; the returned records
    /// name each one left out.
    pub fn into_registry(&self, registry: &mut BlockRegistry) -> (failures: Vec<FailedDeclaration>)
        requires
            old(registry).well_formed(),
        ensures
            final(registry).well_formed(),
            final(registry)@ == apply_entries(old(registry)@, self@),
            failures@.map_values(|f: FailedDeclaration| f@) == failures_of(self@),
    {
        let ghost base = registry@;
        let mut failures: Vec<FailedDeclaration> = Vec::new();
        let mut i: usize = 0;
        while i < self.entries.len()
            invariant
                i <= self@.len(),
                registry.well_formed(),
                registry@ == apply_entries(base, self@.subrange(0, i as int)),
                failures@.map_values(|f: FailedDeclaration| f@) == failures_of(
                    self@.subrange(0, i as int),
                ),
            decreases self@.len() - i,
        {
            assert(self@.subrange(0, i + 1).drop_last() =~= self@.subrange(0, i as int));
            let id = self.entries[i].0;
            if id >= MAX_BLOCK_ID {
                failures.push(
                    FailedDeclaration { id, subtype: None, reason: oversized_reason_text(id) },
                );
            } else {
                registry.set_declaration(id as BlockSize, Some(self.entries[i].1.clone()));
            }
            assert(failures@.map_values(|f: FailedDeclaration| f@) =~= failures_of(
                self@.subrange(0, i + 1),
            ));
            i = i + 1;
        }
        assert(self@.subrange(0, self@.len() as int) =~= self@);
        failures
    }
}

/// A parse error of `serde_json`, carried through unchanged.
#[verifier::external_type_specification]
#[verifier::external_body]
pub struct ExJsonError(serde_json::Error);

/// An I/O error of `std::io`, carried through unchanged.
#[verifier::external_type_specification]
#[verifier::external_body]
pub struct ExIoError(std::io::Error);

/// Why no registry could be built.
#[derive(Debug)]
pub enum RegistryError {
    /// The declaration source does not have the shape of a declaration file.
    JSON(serde_json::Error),
    /// The declaration source could not be read.
    IO(std::io::Error),
}

impl BlockRegistry {
    /// A registry holding the declarations of `file`, with the records of
    /// the declarations that were left out.
    pub fn from_registry_file(file: &BlockRegistryFile) -> (r: (BlockRegistry, Vec<FailedDeclaration>))
        ensures
            r.0.well_formed(),
            r.0@ == apply_entries(RegistryView::empty(), file@),
            r.1@.map_values(|f: FailedDeclaration| f@) == failures_of(file@),
    {
        let mut registry = BlockRegistry::empty();
        let failures = file.into_registry(&mut registry);
        (registry, failures)
    }

    /// Builds a registry from the outcome of parsing a declaration source:
    /// a parse error is passed on and no registry is built; a parsed file
    /// always gives a registry, with the records of the declarations that
    /// were left out.
    pub fn from_parsed(parsed: Result<BlockRegistryFile, serde_json::Error>) -> (r: Result<
        (BlockRegistry, Vec<FailedDeclaration>),
        RegistryError,
    >)
        ensures
            match parsed {
                Err(e) => r == Err::<(BlockRegistry, Vec<FailedDeclaration>), RegistryError>(
                    RegistryError::JSON(e),
                ),
                Ok(file) => match r {
                    Ok((registry, failures)) => {
                        &&& registry.well_formed()
                        &&& registry@ == apply_entries(RegistryView::empty(), file@)
                        &&& failures@.map_values(|f: FailedDeclaration| f@) == failures_of(file@)
                    },
                    Err(_) => false,
                },
            },
    {
        match parsed {
            Err(e) => Err(RegistryError::JSON(e)),
            Ok(file) => Ok(BlockRegistry::from_registry_file(&file)),
        }
    }
}

} // verus!
