//! What is sent, and what received things are called.

use vstd::prelude::*;
use vstd::string::StrSliceExecFns;
use vstd::utf8::encode_utf8;

use crate::file_transfer::{FileEntry, TransferError, MAX_FILE_ENTRIES, MAX_PATH_BYTES};
use crate::text::{
    comes_before, decimal, lemma_before_asymmetric, lemma_before_negative_transitive,
    lemma_decimal_injective, lemma_insert_multiset, text_before, write_decimal,
};

verus! {

/// How many names are tried for something that was received.
pub const MAX_COPIES: u32 = 10_000;

/// Where a file's extension starts: at its last dot, unless that is its first character.
/// The end of the name where there is no extension.
pub open spec fn extension_start(name: Seq<char>) -> int {
    extension_start_before(name, name.len() as int)
}

/// Where the last dot stands before `end`, unless that is the first character; else the
/// end of the name.
pub open spec fn extension_start_before(name: Seq<char>, end: int) -> int
    decreases end,
{
    if end <= 1 {
        name.len() as int
    } else if name[end - 1] == '.' {
        end - 1
    } else {
        extension_start_before(name, end - 1)
    }
}

proof fn lemma_extension_start(name: Seq<char>, end: int)
    requires
        0 <= end <= name.len(),
    ensures
        0 <= extension_start_before(name, end) <= name.len(),
    decreases end,
{
    if end > 1 && name[end - 1] != '.' {
        lemma_extension_start(name, end - 1);
    }
}

/// What something is called at the `copy`-th attempt: first by its own name, then with a
/// number behind it, or before the extension of a file.
pub open spec fn copy_name_of(name: Seq<char>, directory: bool, copy: u32) -> Seq<char> {
    if copy == 1 {
        name
    } else {
        let at = if directory {
            name.len() as int
        } else {
            extension_start(name)
        };
        name.take(at) + " ("@ + decimal(copy as nat) + ")"@ + name.skip(at)
    }
}

/// What something is called at the `copy`-th attempt.
pub fn copy_name(name: &str, directory: bool, copy: u32) -> (called: String)
    ensures
        called@ == copy_name_of(name@, directory, copy),
{
    if copy == 1 {
        return name.to_owned();
    }
    let len = name.unicode_len();
    let mut at: usize = len;
    if !directory {
        let mut end: usize = len;
        while end > 1 && name.get_char(end - 1) != '.'
            invariant
                end <= len,
                len == name@.len(),
                extension_start(name@) == extension_start_before(name@, end as int),
            decreases end,
        {
            end -= 1;
        }
        if end > 1 {
            at = end - 1;
        }
    }
    let mut called = name.substring_char(0, at).to_owned();
    called.append(" (");
    called.append(write_decimal(copy as u64).as_str());
    called.append(")");
    called.append(name.substring_char(at, len));
    assert(name@.subrange(0, at as int) =~= name@.take(at as int));
    assert(name@.subrange(at as int, len as int) =~= name@.skip(at as int));
    called
}

/// Different attempts give different names, so that nothing is tried twice.
pub proof fn copies_have_different_names(name: Seq<char>, directory: bool, a: u32, b: u32)
    requires
        1 <= a < b,
    ensures
        copy_name_of(name, directory, a) != copy_name_of(name, directory, b),
{
    reveal_strlit(" (");
    let at = if directory {
        name.len() as int
    } else {
        extension_start(name)
    };
    lemma_extension_start(name, name.len() as int);
    let x = copy_name_of(name, directory, a);
    let y = copy_name_of(name, directory, b);
    let n = at + 2;
    let m = decimal(a as nat).len() as int;
    if x == y {
        assert(y.len() == n + decimal(b as nat).len() + ")"@.len() + name.len() - at);
        if a > 1 {
            assert(x.len() == n + m + ")"@.len() + name.len() - at);
            assert(x.subrange(n, n + m) =~= decimal(a as nat));
            assert(y.subrange(n, n + m) =~= decimal(b as nat));
            lemma_decimal_injective(a as nat, b as nat);
        }
    }
}

/// What stands at a path.
#[derive(Debug, Clone, Copy, PartialEq, Eq, Structural)]
pub enum SourceKind {
    File { size: u64 },
    Directory,
    /// A link, a device or whatever else is not sent.
    Other,
}

/// What is to be sent: where to look yet, and what was found. Every path goes with its
/// place within the transfer.
pub struct SourceWalk {
    pub pending: Vec<(String, String)>,
    pub sources: Vec<(FileEntry, String)>,
}

/// A path and its place within the transfer.
pub type PlaceView = (Seq<char>, Seq<char>);

/// Something to be sent: its place, its size, whether it is a directory, and its path.
pub struct SourceView {
    pub place: Seq<char>,
    pub size: u64,
    pub directory: bool,
    pub path: Seq<char>,
}

/// A walk, as a value.
#[verifier::ext_equal]
pub struct WalkView {
    pub pending: Seq<PlaceView>,
    pub sources: Seq<SourceView>,
}

/// Something to be sent, as a value.
pub open spec fn source_view(source: (FileEntry, String)) -> SourceView {
    SourceView {
        place: source.0.path@,
        size: source.0.size,
        directory: source.0.directory,
        path: source.1@,
    }
}

impl View for SourceWalk {
    type V = WalkView;

    open spec fn view(&self) -> WalkView {
        WalkView {
            pending: self.pending@.map_values(|place: (String, String)| (place.0@, place.1@)),
            sources: self.sources@.map_values(|source: (FileEntry, String)| source_view(source)),
        }
    }
}

/// Whether things to be sent stand in the order of their places.
pub open spec fn by_place(sources: Seq<(FileEntry, String)>) -> bool {
    forall|i: int, j: int|
        0 <= i < j < sources.len() ==> !text_before(
            (#[trigger] sources[j]).0.path@,
            (#[trigger] sources[i]).0.path@,
        )
}

/// The things to be sent at one place, in order.
pub open spec fn at_place(sources: Seq<(FileEntry, String)>, place: Seq<char>) -> Seq<
    (FileEntry, String),
> {
    sources.filter(|source: (FileEntry, String)| source.0.path@ == place)
}

proof fn lemma_nothing_at_place(sources: Seq<(FileEntry, String)>, place: Seq<char>)
    requires
        forall|k: int| 0 <= k < sources.len() ==> (#[trigger] sources[k]).0.path@ != place,
    ensures
        at_place(sources, place) =~= Seq::<(FileEntry, String)>::empty(),
    decreases sources.len(),
{
    reveal(Seq::filter);
    if sources.len() > 0 {
        assert(sources.last().0.path@ != place);
        assert forall|k: int| 0 <= k < sources.drop_last().len() implies (
        #[trigger] sources.drop_last()[k]).0.path@ != place by {
            assert(sources.drop_last()[k] == sources[k]);
        }
        lemma_nothing_at_place(sources.drop_last(), place);
    }
}

/// Something that is put before everything at its own place, and behind everything at
/// places before it, changes no order within a place.
proof fn lemma_insert_keeps_places(
    rest: Seq<(FileEntry, String)>,
    order: Seq<(FileEntry, String)>,
    at: int,
    item: (FileEntry, String),
    place: Seq<char>,
)
    requires
        0 <= at <= order.len(),
        forall|k: int| 0 <= k < at ==> (#[trigger] order[k]).0.path@ != item.0.path@,
    ensures
        at_place(rest, place) + at_place(order.insert(at, item), place) == at_place(
            rest.push(item),
            place,
        ) + at_place(order, place),
{
    let here = |source: (FileEntry, String)| source.0.path@ == place;
    let one = seq![item];
    let before = order.take(at);
    let behind = order.skip(at);
    assert(order =~= before + behind);
    assert(order.insert(at, item) =~= before + (one + behind));
    assert(rest.push(item) =~= rest + one);
    Seq::filter_distributes_over_add(before, behind, here);
    Seq::filter_distributes_over_add(one, behind, here);
    Seq::filter_distributes_over_add(before, one + behind, here);
    Seq::filter_distributes_over_add(rest, one, here);
    if item.0.path@ == place {
        assert forall|k: int| 0 <= k < before.len() implies (#[trigger] before[k]).0.path@
            != place by {
            assert(before[k] == order[k]);
        }
        lemma_nothing_at_place(before, place);
    } else {
        lemma_nothing_at_place(one, place);
    }
    assert(at_place(rest, place) + at_place(order.insert(at, item), place) =~= at_place(
        rest.push(item),
        place,
    ) + at_place(order, place));
}

impl SourceWalk {
    pub fn new() -> (walk: Self)
        ensures
            walk@.pending == Seq::<PlaceView>::empty(),
            walk@.sources == Seq::<SourceView>::empty(),
    {
        let walk = SourceWalk { pending: Vec::new(), sources: Vec::new() };
        assert(walk@.pending =~= Seq::<PlaceView>::empty());
        assert(walk@.sources =~= Seq::<SourceView>::empty());
        walk
    }

    /// Adds what was dropped. `name` is the last part of its path, where that is text.
    pub fn add_root(&mut self, path: String, absolute: bool, name: Option<String>) -> (added:
        Result<(), TransferError>)
        ensures
            match added {
                Ok(()) => absolute && name is Some && final(self)@ == (WalkView {
                    pending: old(self)@.pending.push((path@, name->Some_0@)),
                    ..old(self)@
                }),
                Err(error) => final(self)@ == old(self)@ && (if !absolute {
                    error == TransferError::RelativeSource
                } else {
                    name is None && error == TransferError::InvalidName
                }),
            },
    {
        if !absolute {
            return Err(TransferError::RelativeSource);
        }
        match name {
            Some(name) => {
                let ghost place = (path@, name@);
                self.pending.push((path, name));
                assert(self@.pending =~= old(self)@.pending.push(place));
                assert(self@.sources =~= old(self)@.sources);
                Ok(())
            },
            None => Err(TransferError::InvalidName),
        }
    }

    /// Where to look next, and its place within the transfer.
    pub fn next(&mut self) -> (place: Option<(String, String)>)
        ensures
            match place {
                Some(found) => old(self)@.pending.len() > 0 && (found.0@, found.1@)
                    == old(self)@.pending.last() && final(self)@ == (WalkView {
                    pending: old(self)@.pending.drop_last(),
                    ..old(self)@
                }),
                None => old(self)@.pending.len() == 0 && final(self)@ == old(self)@,
            },
    {
        let place = self.pending.pop();
        proof {
            assert(self@.sources =~= old(self)@.sources);
            if place is Some {
                assert(self@.pending =~= old(self)@.pending.drop_last());
            }
        }
        place
    }

    /// Adds what was found at a path. Says whether to look inside it.
    pub fn visit(&mut self, path: String, place: String, kind: SourceKind) -> (inside: Result<
        bool,
        TransferError,
    >)
        ensures
            ({
                let added = WalkView {
                    sources: old(self)@.sources.push(
                        SourceView {
                            place: place@,
                            size: match kind {
                                SourceKind::File { size } => size,
                                _ => 0,
                            },
                            directory: kind == SourceKind::Directory,
                            path: path@,
                        },
                    ),
                    ..old(self)@
                };
                match inside {
                    Ok(descend) => {
                        &&& kind != SourceKind::Other
                        &&& final(self)@ == added
                        &&& added.sources.len() + added.pending.len() <= MAX_FILE_ENTRIES
                        &&& encode_utf8(place@).len() <= MAX_PATH_BYTES
                        &&& descend == (kind == SourceKind::Directory)
                    },
                    Err(TransferError::NotRegular) => kind == SourceKind::Other && final(self)@
                        == old(self)@,
                    Err(TransferError::TooManyEntries) => kind != SourceKind::Other && final(self)@ == added && added.sources.len() + added.pending.len() > MAX_FILE_ENTRIES,
                    Err(TransferError::TooDeep) => kind != SourceKind::Other && final(self)@
                        == added && added.sources.len() + added.pending.len() <= MAX_FILE_ENTRIES
                        && encode_utf8(place@).len() > MAX_PATH_BYTES,
                    Err(_) => false,
                }
            }),
    {
        let (size, directory) = match kind {
            SourceKind::File { size } => (size, false),
            SourceKind::Directory => (0, true),
            SourceKind::Other => {
                return Err(TransferError::NotRegular);
            },
        };
        let deep = place.as_str().as_bytes().len() > MAX_PATH_BYTES;
        let source = (FileEntry { path: place, size, directory }, path);
        let ghost view = source_view(source);
        self.sources.push(source);
        assert(self@.sources =~= old(self)@.sources.push(view));
        assert(self@.pending =~= old(self)@.pending);
        if self.sources.len() > MAX_FILE_ENTRIES || self.pending.len() > MAX_FILE_ENTRIES
            - self.sources.len() {
            return Err(TransferError::TooManyEntries);
        }
        if deep {
            return Err(TransferError::TooDeep);
        }
        Ok(directory)
    }

    /// Adds something that lies inside a directory at `place`.
    pub fn add_child(&mut self, place: &str, path: String, name: &str) -> (added: Result<
        (),
        TransferError,
    >)
        ensures
            final(self)@ == (WalkView {
                pending: old(self)@.pending.push((path@, place@ + "/"@ + name@)),
                ..old(self)@
            }),
            match added {
                Ok(()) => final(self)@.sources.len() + final(self)@.pending.len()
                    <= MAX_FILE_ENTRIES,
                Err(error) => final(self)@.sources.len() + final(self)@.pending.len()
                    > MAX_FILE_ENTRIES && error == TransferError::TooManyEntries,
            },
    {
        let mut inside = place.to_owned();
        inside.append("/");
        inside.append(name);
        let ghost view = (path@, inside@);
        self.pending.push((path, inside));
        assert(self@.pending =~= old(self)@.pending.push(view));
        assert(self@.sources =~= old(self)@.sources);
        if self.sources.len() > MAX_FILE_ENTRIES || self.pending.len() > MAX_FILE_ENTRIES
            - self.sources.len() {
            return Err(TransferError::TooManyEntries);
        }
        Ok(())
    }

    /// Everything that was found, in the order of the places. What has the same place stays
    /// in the order in which it was found.
    pub fn finish(self) -> (sorted: Vec<(FileEntry, String)>)
        ensures
            by_place(sorted@),
            sorted@.to_multiset() == self.sources@.to_multiset(),
            forall|place: Seq<char>| #[trigger]
                at_place(sorted@, place) == at_place(self.sources@, place),
    {
        let mut rest = self.sources;
        let mut sorted: Vec<(FileEntry, String)> = Vec::new();
        let ghost found = rest@;
        let ghost all = rest@.to_multiset();
        proof {
            broadcast use vstd::seq_lib::group_to_multiset_ensures;

            assert(sorted@ =~= Seq::<(FileEntry, String)>::empty());
            assert(sorted@.to_multiset() =~= vstd::multiset::Multiset::empty());
            assert(sorted@.to_multiset().add(rest@.to_multiset()) =~= all);
            assert forall|place: Seq<char>| #[trigger]
                at_place(found, place) == at_place(rest@, place) + at_place(sorted@, place) by {
                lemma_nothing_at_place(sorted@, place);
            }
        }
        while rest.len() > 0
            invariant
                by_place(sorted@),
                sorted@.to_multiset().add(rest@.to_multiset()) == all,
                forall|place: Seq<char>| #[trigger]
                    at_place(found, place) == at_place(rest@, place) + at_place(sorted@, place),
            decreases rest@.len(),
        {
            let ghost rest_before = rest@;
            let ghost order = sorted@;
            if let Some(source) = rest.pop() {
                let ghost item = source;
                let ghost key = encode_utf8(source.0.path@);
                let mut at: usize = 0;
                while at < sorted.len() && comes_before(
                    sorted[at].0.path.as_str(),
                    source.0.path.as_str(),
                )
                    invariant
                        at <= sorted@.len(),
                        sorted@ == order,
                        source == item,
                        forall|k: int|
                            0 <= k < at ==> text_before(
                                (#[trigger] order[k]).0.path@,
                                source.0.path@,
                            ),
                    decreases sorted@.len() - at,
                {
                    at += 1;
                }
                proof {
                    if at < order.len() {
                        assert(!text_before(order[at as int].0.path@, source.0.path@));
                    }
                }
                sorted.insert(at, source);
                proof {
                    let now = sorted@;
                    assert(now =~= order.insert(at as int, item));
                    assert forall|i: int, j: int| 0 <= i < j < now.len() implies !text_before(
                        (#[trigger] now[j]).0.path@,
                        (#[trigger] now[i]).0.path@,
                    ) by {
                        let x = if i < at {
                            i
                        } else {
                            i - 1
                        };
                        let y = if j < at {
                            j
                        } else {
                            j - 1
                        };
                        if j == at {
                            assert(now[i] == order[x]);
                            lemma_before_asymmetric(encode_utf8(order[x].0.path@), key);
                        } else if i == at {
                            assert(now[j] == order[y]);
                            if at < y && text_before(order[y].0.path@, item.0.path@) {
                                let first = order[at as int].0.path@;
                                lemma_before_negative_transitive(
                                    encode_utf8(order[y].0.path@),
                                    key,
                                    encode_utf8(first),
                                );
                            }
                        } else {
                            assert(now[i] == order[x]);
                            assert(now[j] == order[y]);
                        }
                    }
                    lemma_insert_multiset(order, at as int, item);
                    assert(rest_before =~= rest@.push(item));
                    vstd::seq_lib::to_multiset_build(rest@, item);
                    assert(now.to_multiset().add(rest@.to_multiset()) =~= all);
                    assert forall|k: int| 0 <= k < at implies (#[trigger] order[k]).0.path@
                        != item.0.path@ by {
                        lemma_before_asymmetric(encode_utf8(order[k].0.path@), key);
                    }
                    assert forall|place: Seq<char>| #[trigger]
                        at_place(found, place) == at_place(rest@, place) + at_place(now, place) by {
                        lemma_insert_keeps_places(rest@, order, at as int, item, place);
                    }
                }
            }
        }
        proof {
            broadcast use vstd::seq_lib::group_to_multiset_ensures;

            assert(rest@ =~= Seq::<(FileEntry, String)>::empty());
            assert(rest@.to_multiset() =~= vstd::multiset::Multiset::empty());
            assert(sorted@.to_multiset() =~= all);
            assert forall|place: Seq<char>| #[trigger]
                at_place(sorted@, place) == at_place(found, place) by {
                lemma_nothing_at_place(rest@, place);
            }
        }
        sorted
    }
}

proof fn lemma_last_dot(name: Seq<char>, dot: int, end: int)
    requires
        0 < dot < end <= name.len(),
        name[dot] == '.',
        forall|i: int| dot < i < name.len() ==> name[i] != '.',
    ensures
        extension_start_before(name, end) == dot,
    decreases end,
{
    if end - 1 > dot {
        lemma_last_dot(name, dot, end - 1);
    }
}

proof fn lemma_no_dot(name: Seq<char>, end: int)
    requires
        0 <= end <= name.len(),
        forall|i: int| 0 < i < name.len() ==> name[i] != '.',
    ensures
        extension_start_before(name, end) == name.len(),
    decreases end,
{
    if end > 1 {
        lemma_no_dot(name, end - 1);
    }
}

/// The first attempt is the name itself. A later one has the attempt's number in brackets behind
/// a file's stem, and the file keeps its extension, which is what stands behind the last dot.
pub proof fn files_keep_their_extension(stem: Seq<char>, extension: Seq<char>, copy: u32)
    requires
        stem.len() > 0,
        forall|i: int| 0 <= i < extension.len() ==> extension[i] != '.',
    ensures
        ({
            let name = stem + seq!['.'] + extension;
            &&& copy_name_of(name, false, 1) == name
            &&& copy != 1 ==> copy_name_of(name, false, copy) == stem + " ("@ + decimal(
                copy as nat,
            ) + ")"@ + seq!['.'] + extension
        }),
{
    let name = stem + seq!['.'] + extension;
    let dot = stem.len() as int;
    assert(name[dot] == '.');
    assert forall|i: int| dot < i < name.len() implies name[i] != '.' by {
        assert(name[i] == extension[i - dot - 1]);
    }
    lemma_last_dot(name, dot, name.len() as int);
    assert(name.take(dot) =~= stem);
    assert(name.skip(dot) =~= seq!['.'] + extension);
    let numbered = stem + " ("@ + decimal(copy as nat) + ")"@;
    assert(numbered + (seq!['.'] + extension) =~= numbered + seq!['.'] + extension);
}

/// A directory has no extension, and neither has a file without a dot behind its first
/// character: the number stands behind the whole name.
pub proof fn other_names_are_numbered_at_their_end(name: Seq<char>, copy: u32)
    requires
        copy != 1,
    ensures
        copy_name_of(name, true, 1) == name,
        copy_name_of(name, true, copy) == name + " ("@ + decimal(copy as nat) + ")"@,
        (forall|i: int| 0 < i < name.len() ==> name[i] != '.') ==> copy_name_of(name, false, copy)
            == name + " ("@ + decimal(copy as nat) + ")"@,
{
    assert(name.take(name.len() as int) =~= name);
    assert(name.skip(name.len() as int) =~= Seq::<char>::empty());
    let numbered = name + " ("@ + decimal(copy as nat) + ")"@;
    assert(numbered + Seq::<char>::empty() =~= numbered);
    if forall|i: int| 0 < i < name.len() ==> name[i] != '.' {
        lemma_no_dot(name, name.len() as int);
    }
}

/// What is sent stands in the order of the places: something whose place comes before another's
/// does not stand behind it.
pub proof fn things_are_sent_in_the_order_of_their_places(
    sources: Seq<(FileEntry, String)>,
    i: int,
    j: int,
)
    requires
        by_place(sources),
        0 <= i < sources.len(),
        0 <= j < sources.len(),
        text_before(sources[i].0.path@, sources[j].0.path@),
    ensures
        i < j,
{
    lemma_before_asymmetric(encode_utf8(sources[i].0.path@), encode_utf8(sources[j].0.path@));
}

} // verus!
