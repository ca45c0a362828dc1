//! Pairing the files of a directory by the identifier in their names.

use crate::order::{
    ascending,
    comes_before,
    lemma_precedes_total,
    lemma_precedes_transitive,
    precedes,
};
use crate::split::views;
use crate::text::{find_first, first_occurrence, lemma_first_occurrence, same_chars};
use vstd::prelude::*;

verus! {

/// One regular file of the directory: its name and the path that leads to it.
#[derive(Debug, Clone, PartialEq, Eq)]
pub struct FileEntry {
    /// The name of the file, without the directory.
    pub name: String,
    /// The path of the file, as it is to stand in a command.
    pub path: String,
}

/// A file as plain text.
pub struct FileText {
    pub name: Seq<char>,
    pub path: Seq<char>,
}

impl View for FileEntry {
    type V = FileText;

    open spec fn view(&self) -> FileText {
        FileText { name: self.name@, path: self.path@ }
    }
}

impl DeepView for FileEntry {
    type V = FileText;

    open spec fn deep_view(&self) -> FileText {
        self@
    }
}

/// The two members of a pair.
#[derive(Debug, Clone, Copy, PartialEq, Eq, Structural)]
pub enum PairSlot {
    /// The file whose name holds `_1`.
    First,
    /// The file whose name holds `_2` and no `_1`.
    Second,
}

/// What a file name says of the file: the pair it belongs to and its place in
/// the pair.
pub struct Claim {
    pub id: Seq<char>,
    pub slot: PairSlot,
}

/// The mark of the first member of a pair.
pub open spec fn first_marker() -> Seq<char> {
    seq!['_', '1']
}

/// The mark of the second member of a pair.
pub open spec fn second_marker() -> Seq<char> {
    seq!['_', '2']
}

/// What `name` claims. A name that holds `_1` names a first member, one that
/// holds `_2` and no `_1` a second member; the identifier is what stands
/// before the first such mark. Any other name claims nothing.
pub open spec fn claim_of(name: Seq<char>) -> Option<Claim> {
    match first_occurrence(name, first_marker()) {
        Some(at) => Some(Claim { id: name.take(at), slot: PairSlot::First }),
        None => match first_occurrence(name, second_marker()) {
            Some(at) => Some(Claim { id: name.take(at), slot: PairSlot::Second }),
            None => None,
        },
    }
}

/// Whether `file` is the member `slot` of the pair `id`.
pub open spec fn claims(file: FileText, id: Seq<char>, slot: PairSlot) -> bool {
    claim_of(file.name) == Some(Claim { id, slot })
}

/// The path that fills the slot `slot` of the pair `id`: that of the last
/// file of the list that claims it.
pub open spec fn slot_path(files: Seq<FileText>, id: Seq<char>, slot: PairSlot) -> Option<
    Seq<char>,
>
    decreases files.len(),
{
    if files.len() == 0 {
        None
    } else if claims(files.last(), id, slot) {
        Some(files.last().path)
    } else {
        slot_path(files.drop_last(), id, slot)
    }
}

/// A slot is filled exactly when some file claims it, and then by the path
/// of the last file of the list that does.
pub proof fn lemma_slot_path(files: Seq<FileText>, id: Seq<char>, slot: PairSlot)
    ensures
        match slot_path(files, id, slot) {
            Some(path) => exists|k: int|
                0 <= k < files.len() && #[trigger] claims(files[k], id, slot) && files[k].path
                    == path && forall|later: int|
                    k < later < files.len() ==> !claims(#[trigger] files[later], id, slot),
            None => forall|k: int| 0 <= k < files.len() ==> !claims(#[trigger] files[k], id, slot),
        },
    decreases files.len(),
{
    if files.len() > 0 {
        let rest = files.drop_last();
        if claims(files.last(), id, slot) {
            let k = files.len() - 1;
            assert(claims(files[k], id, slot) && files[k].path == files.last().path);
        } else {
            lemma_slot_path(rest, id, slot);
            match slot_path(rest, id, slot) {
                Some(path) => {
                    let k = choose|k: int|
                        0 <= k < rest.len() && #[trigger] claims(rest[k], id, slot) && rest[k].path
                            == path && forall|later: int|
                            k < later < rest.len() ==> !claims(#[trigger] rest[later], id, slot);
                    assert(claims(files[k], id, slot) && files[k].path == path);
                    assert forall|later: int| k < later < files.len() implies !claims(
                        #[trigger] files[later],
                        id,
                        slot,
                    ) by {
                        if later < rest.len() {
                            assert(!claims(rest[later], id, slot));
                        }
                    }
                },
                None => {
                    assert forall|k: int| 0 <= k < files.len() implies !claims(
                        #[trigger] files[k],
                        id,
                        slot,
                    ) by {
                        if k < rest.len() {
                            assert(!claims(rest[k], id, slot));
                        }
                    }
                },
            }
        }
    }
}

/// Whether both slots of the pair `id` are filled.
pub open spec fn complete(files: Seq<FileText>, id: Seq<char>) -> bool {
    slot_path(files, id, PairSlot::First) is Some && slot_path(files, id, PairSlot::Second) is Some
}

/// The ascending list `ids` with `id` put in its place, if it is not there.
pub open spec fn with_id(ids: Seq<Seq<char>>, id: Seq<char>) -> Seq<Seq<char>>
    decreases ids.len(),
{
    if ids.len() == 0 {
        seq![id]
    } else if ids.last() == id {
        ids
    } else if precedes(ids.last(), id) {
        ids.push(id)
    } else {
        with_id(ids.drop_last(), id).push(ids.last())
    }
}

/// The identifiers that the names of `files` claim, each once, in ascending
/// order.
pub open spec fn identifiers(files: Seq<FileText>) -> Seq<Seq<char>>
    decreases files.len(),
{
    if files.len() == 0 {
        Seq::empty()
    } else {
        let before = identifiers(files.drop_last());
        match claim_of(files.last().name) {
            Some(claim) => with_id(before, claim.id),
            None => before,
        }
    }
}

/// Whether `file` is a member of the pair `id`.
pub open spec fn belongs_to(file: FileText, id: Seq<char>) -> bool {
    claims(file, id, PairSlot::First) || claims(file, id, PairSlot::Second)
}

/// Whether some file of `files` is a member of the pair `id`.
pub open spec fn claimed(files: Seq<FileText>, id: Seq<char>) -> bool {
    exists|k: int| 0 <= k < files.len() && #[trigger] belongs_to(files[k], id)
}

/// Putting a name into an ascending list leaves it ascending, and adds that
/// name and no other.
pub proof fn lemma_with_id(ids: Seq<Seq<char>>, id: Seq<char>)
    requires
        ascending(ids),
    ensures
        ascending(with_id(ids, id)),
        with_id(ids, id).contains(id),
        forall|name: Seq<char>|
            #[trigger] with_id(ids, id).contains(name) <==> ids.contains(name) || name == id,
    decreases ids.len(),
{
    let out = with_id(ids, id);
    if ids.len() == 0 {
        assert(out[0] == id);
        assert forall|name: Seq<char>| out.contains(name) <==> ids.contains(name) || name
            == id by {
            if name == id {
                assert(out[0] == name);
            }
        }
    } else if ids.last() == id {
        assert(ids.contains(ids.last()));
    } else if precedes(ids.last(), id) {
        assert forall|i: int, j: int| 0 <= i < j < out.len() implies precedes(out[i], out[j]) by {
            if j == ids.len() {
                if i < ids.len() - 1 {
                    lemma_precedes_transitive(ids[i], ids.last(), id);
                }
            }
        }
        assert forall|name: Seq<char>| out.contains(name) <==> ids.contains(name) || name
            == id by {
            if ids.contains(name) {
                let k = choose|k: int| 0 <= k < ids.len() && ids[k] == name;
                assert(out[k] == name);
            }
            if name == id {
                assert(out[ids.len() as int] == name);
            }
        }
    } else {
        let rest = ids.drop_last();
        let top = ids.last();
        let inner = with_id(rest, id);
        assert(ascending(rest));
        lemma_with_id(rest, id);
        lemma_precedes_total(top, id);
        assert forall|i: int, j: int| 0 <= i < j < out.len() implies precedes(out[i], out[j]) by {
            if j == inner.len() {
                assert(inner.contains(inner[i]));
                if rest.contains(inner[i]) {
                    let k = choose|k: int| 0 <= k < rest.len() && rest[k] == inner[i];
                    assert(precedes(ids[k], ids[ids.len() - 1]));
                }
            }
        }
        assert forall|name: Seq<char>| out.contains(name) <==> ids.contains(name) || name
            == id by {
            if out.contains(name) {
                let k = choose|k: int| 0 <= k < out.len() && out[k] == name;
                if k < inner.len() {
                    assert(inner.contains(name));
                    if rest.contains(name) {
                        let m = choose|m: int| 0 <= m < rest.len() && rest[m] == name;
                        assert(ids[m] == name);
                    }
                } else {
                    assert(ids[ids.len() - 1] == name);
                }
            }
            if ids.contains(name) {
                let k = choose|k: int| 0 <= k < ids.len() && ids[k] == name;
                if k < rest.len() {
                    assert(rest[k] == name);
                    assert(rest.contains(name));
                    assert(inner.contains(name));
                    let m = choose|m: int| 0 <= m < inner.len() && inner[m] == name;
                    assert(out[m] == name);
                } else {
                    assert(out[inner.len() as int] == name);
                }
            }
            if name == id {
                assert(inner.contains(name));
                let m = choose|m: int| 0 <= m < inner.len() && inner[m] == name;
                assert(out[m] == name);
            }
        }
    }
}

/// The identifiers of a directory stand in ascending order, so none stands
/// twice, and they are the identifiers that some file claims.
pub proof fn lemma_identifiers(files: Seq<FileText>)
    ensures
        ascending(identifiers(files)),
        forall|id: Seq<char>| identifiers(files).contains(id) <==> claimed(files, id),
    decreases files.len(),
{
    let ids = identifiers(files);
    if files.len() == 0 {
    } else {
        let rest = files.drop_last();
        let before = identifiers(rest);
        lemma_identifiers(rest);
        match claim_of(files.last().name) {
            Some(claim) => {
                lemma_with_id(before, claim.id);
            },
            None => {},
        }
        assert forall|id: Seq<char>| ids.contains(id) <==> claimed(files, id) by {
            if claimed(rest, id) {
                let k = choose|k: int| 0 <= k < rest.len() && #[trigger] belongs_to(rest[k], id);
                assert(belongs_to(files[k], id));
            }
            if claimed(files, id) {
                let k = choose|k: int| 0 <= k < files.len() && #[trigger] belongs_to(files[k], id);
                if k < rest.len() {
                    assert(belongs_to(rest[k], id));
                }
            }
            if ids.contains(id) && !before.contains(id) {
                assert(belongs_to(files[files.len() - 1], id));
            }
        }
    }
}

/// The position from `from` on of the first identifier of `ids` that lacks a
/// member.
pub open spec fn first_incomplete(files: Seq<FileText>, ids: Seq<Seq<char>>, from: int) -> Option<
    int,
>
    decreases ids.len() - from,
{
    if from < 0 || from >= ids.len() {
        None
    } else if !complete(files, ids[from]) {
        Some(from)
    } else {
        first_incomplete(files, ids, from + 1)
    }
}

/// The first incomplete identifier is incomplete, all before it are
/// complete, and where there is none all are complete.
pub proof fn lemma_first_incomplete(files: Seq<FileText>, ids: Seq<Seq<char>>, from: int)
    requires
        0 <= from,
    ensures
        match first_incomplete(files, ids, from) {
            Some(at) => from <= at < ids.len() && !complete(files, ids[at]) && forall|j: int|
                from <= j < at ==> complete(files, ids[j]),
            None => forall|j: int| from <= j < ids.len() ==> complete(files, ids[j]),
        },
    decreases ids.len() - from,
{
    if from < ids.len() && complete(files, ids[from]) {
        lemma_first_incomplete(files, ids, from + 1);
    }
}

/// What a file name claims: the identifier and the slot, or nothing.
pub fn classify(name: &Vec<char>) -> (found: Option<(Vec<char>, PairSlot)>)
    ensures
        match found {
            Some((id, slot)) => claim_of(name@) == Some(Claim { id: id@, slot }),
            None => claim_of(name@) is None,
        },
{
    let mut first: Vec<char> = Vec::new();
    first.push('_');
    first.push('1');
    let mut second: Vec<char> = Vec::new();
    second.push('_');
    second.push('2');
    proof {
        assert(first@ =~= first_marker());
        assert(second@ =~= second_marker());
        lemma_first_occurrence(name@, first_marker(), 0);
        lemma_first_occurrence(name@, second_marker(), 0);
    }
    match find_first(name, &first) {
        Some(at) => Some((prefix(name, at), PairSlot::First)),
        None => match find_first(name, &second) {
            Some(at) => Some((prefix(name, at), PairSlot::Second)),
            None => None,
        },
    }
}

/// The first `n` characters of `s`.
fn prefix(s: &Vec<char>, n: usize) -> (head: Vec<char>)
    requires
        n <= s.len(),
    ensures
        head@ == s@.take(n as int),
{
    let mut head: Vec<char> = Vec::new();
    let mut i: usize = 0;
    while i < n
        invariant
            i <= n <= s.len(),
            head@ == s@.take(i as int),
        decreases n - i,
    {
        head.push(s[i]);
        proof {
            assert(s@.take(i + 1) =~= s@.take(i as int).push(s@[i as int]));
        }
        i = i + 1;
    }
    head
}

/// `with_id` leaves alone the names above the place of the new one.
proof fn lemma_with_id_above(ids: Seq<Seq<char>>, id: Seq<char>, from: int)
    requires
        0 <= from <= ids.len(),
        forall|k: int| from <= k < ids.len() ==> ids[k] != id && !precedes(ids[k], id),
    ensures
        with_id(ids, id) == with_id(ids.take(from), id) + ids.skip(from),
    decreases ids.len() - from,
{
    if from == ids.len() {
        assert(ids.take(from) =~= ids);
        assert(with_id(ids, id) + ids.skip(from) =~= with_id(ids, id));
    } else {
        let rest = ids.drop_last();
        lemma_with_id_above(rest, id, from);
        assert(rest.take(from) =~= ids.take(from));
        assert(ids.skip(from) =~= rest.skip(from).push(ids.last()));
        assert(with_id(ids, id) =~= with_id(ids.take(from), id) + ids.skip(from));
    }
}

/// Where `id` is to be put into the ascending list `ids`, if it is not there.
fn insertion_place(ids: &Vec<Vec<char>>, id: &Vec<char>) -> (place: Option<usize>)
    ensures
        match place {
            Some(at) => at <= ids.len() && with_id(views(ids@), id@) == views(ids@).take(
                at as int,
            ).push(id@) + views(ids@).skip(at as int),
            None => with_id(views(ids@), id@) == views(ids@),
        },
{
    let ghost all = views(ids@);
    let mut j: usize = ids.len();
    loop
        invariant
            j <= ids.len(),
            all == views(ids@),
            forall|k: int| j <= k < all.len() ==> all[k] != id@ && !precedes(all[k], id@),
        decreases j,
    {
        proof {
            lemma_with_id_above(all, id@, j as int);
            assert(all.take(j as int) + all.skip(j as int) =~= all);
        }
        if j == 0 {
            proof {
                assert(all.take(0).len() == 0);
                assert(with_id(all.take(0), id@) =~= all.take(0).push(id@));
            }
            return Some(0);
        }
        proof {
            assert(all.take(j as int).last() == all[j - 1]);
        }
        if same_chars(&ids[j - 1], id) {
            return None;
        }
        if comes_before(&ids[j - 1], id) {
            return Some(j);
        }
        j = j - 1;
    }
}

/// Puts `id` in its place in the ascending list `ids`, if it is not there.
pub fn insert_id(ids: &mut Vec<Vec<char>>, id: Vec<char>)
    ensures
        views(final(ids)@) == with_id(views(old(ids)@), id@),
{
    match insertion_place(ids, &id) {
        Some(at) => {
            proof {
                let all = views(ids@);
                assert(views(ids@.insert(at as int, id)) =~= all.take(at as int).push(id@)
                    + all.skip(at as int));
            }
            ids.insert(at, id);
        },
        None => {},
    }
}

} // verus!
