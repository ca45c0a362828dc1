//! Resolving the input into the ordered list of commands, one per task.

use crate::error::{outcome_text, ArrayifyError, ErrorText};
use crate::order::{ascending, lemma_ascending_unique, precedes};
use crate::pairs::{
    belongs_to,
    claim_of,
    claimed,
    claims,
    classify,
    complete,
    first_incomplete,
    identifiers,
    insert_id,
    lemma_first_incomplete,
    lemma_identifiers,
    lemma_slot_path,
    slot_path,
    Claim,
    FileEntry,
    FileText,
    PairSlot,
};
use crate::split::views;
use crate::text::{
    append_chars,
    from_chars,
    lemma_replaced_without_occurrence,
    occurs_at,
    replace_chars,
    replaced,
    same_chars,
    to_chars,
};
use vstd::prelude::*;

verus! {

/// One task of an array: the index by which the scheduler knows it, and the
/// command it runs.
#[derive(Debug, Clone, PartialEq, Eq)]
pub struct JobSpec {
    /// The index of the task, counted from 1.
    pub index: usize,
    /// The command, fully expanded.
    pub command: String,
}

/// A task as plain values.
pub struct JobText {
    pub index: nat,
    pub command: Seq<char>,
}

impl View for JobSpec {
    type V = JobText;

    open spec fn view(&self) -> JobText {
        JobText { index: self.index as nat, command: self.command@ }
    }
}

impl DeepView for JobSpec {
    type V = JobText;

    open spec fn deep_view(&self) -> JobText {
        self@
    }
}

/// The tasks of `commands`: each command with its place in the list, counted
/// from 1.
pub open spec fn numbered(commands: Seq<Seq<char>>) -> Seq<JobText> {
    Seq::new(commands.len(), |i: int| JobText { index: (i + 1) as nat, command: commands[i] })
}

/// The tasks of `commands`, in their order, with the indices 1, 2, 3 and so
/// on.
pub fn job_specs(commands: &Vec<String>) -> (jobs: Vec<JobSpec>)
    ensures
        jobs.deep_view() == numbered(commands.deep_view()),
{
    let mut jobs: Vec<JobSpec> = Vec::new();
    let mut i: usize = 0;
    while i < commands.len()
        invariant
            i <= commands.len(),
            jobs.len() == i,
            forall|k: int|
                0 <= k < i ==> (#[trigger] jobs[k]).index == k + 1 && jobs[k].command@
                    == commands[k]@,
        decreases commands.len() - i,
    {
        jobs.push(JobSpec { index: i + 1, command: commands[i].clone() });
        i = i + 1;
    }
    proof {
        assert(jobs.deep_view() =~= numbered(commands.deep_view()));
    }
    jobs
}

/// A table of text: a header row and the rows below it.
#[derive(Debug, Clone, PartialEq, Eq)]
pub struct Table {
    /// The names of the columns.
    pub headers: Vec<String>,
    /// The rows, each a list of fields.
    pub rows: Vec<Vec<String>>,
}

/// A table as plain text.
pub struct TableText {
    pub headers: Seq<Seq<char>>,
    pub rows: Seq<Seq<Seq<char>>>,
}

impl View for Table {
    type V = TableText;

    open spec fn view(&self) -> TableText {
        TableText { headers: self.headers.deep_view(), rows: self.rows.deep_view() }
    }
}

/// The error of the `csv` crate. It is carried through unread.
#[verifier::external_type_specification]
#[verifier::external_body]
pub struct ExCsvError(csv::Error);

/// The table that the `csv` crate reads from `data` with its default settings
/// (comma-delimited, first record the header, all records of one length), or
/// `None` where it reports an error in the header or in any record.
pub uninterp spec fn csv_table(data: Seq<u8>) -> Option<TableText>;

/// Reads `data` with `csv::Reader`: `headers()` for the first record, then
/// `records()` to the end. The contract names the outcome and claims only
/// that it depends on the bytes alone; an error of either call is handed on.
#[verifier::external_body]
fn parse_table(data: &[u8]) -> (parsed: Result<Table, csv::Error>)
    ensures
        match parsed {
            Ok(table) => csv_table(data@) == Some(table@),
            Err(_) => csv_table(data@) is None,
        },
{
    let mut reader = csv::ReaderBuilder::new().has_headers(true).from_reader(data);
    let headers = reader.headers()?.iter().map(String::from).collect();
    let rows = reader
        .records()
        .map(|record| record.map(|fields| fields.iter().map(String::from).collect()))
        .collect::<Result<Vec<Vec<String>>, csv::Error>>()?;
    Ok(Table { headers, rows })
}

/// The placeholder that stands for the column `name` in a template.
pub open spec fn placeholder(name: Seq<char>) -> Seq<char> {
    seq!['{'] + name + seq!['}']
}

/// `template` after the first `n` names have been dealt with in order: each
/// name that has a value has every occurrence of its placeholder replaced by
/// that value.
pub open spec fn expanded_upto(
    template: Seq<char>,
    names: Seq<Seq<char>>,
    values: Seq<Seq<char>>,
    n: nat,
) -> Seq<char>
    decreases n,
{
    if n == 0 {
        template
    } else {
        let before = expanded_upto(template, names, values, (n - 1) as nat);
        if n <= names.len() && n <= values.len() {
            replaced(before, placeholder(names[n - 1]), values[n - 1])
        } else {
            before
        }
    }
}

/// `template` with the placeholder of every name replaced by the value at the
/// name's position, the names taken from first to last.
pub open spec fn expanded(template: Seq<char>, names: Seq<Seq<char>>, values: Seq<Seq<char>>) -> Seq<
    char,
> {
    expanded_upto(template, names, values, names.len())
}

/// The commands of a table: the template expanded once for each row.
pub open spec fn table_commands(template: Seq<char>, table: TableText) -> Seq<Seq<char>> {
    Seq::new(table.rows.len(), |i: int| expanded(template, table.headers, table.rows[i]))
}

/// Names whose placeholders do not occur leave the template as it is.
proof fn lemma_expanded_upto_without_placeholders(
    template: Seq<char>,
    names: Seq<Seq<char>>,
    values: Seq<Seq<char>>,
    n: nat,
)
    requires
        n <= names.len(),
        forall|n: int, j: int|
            0 <= n < names.len() ==> !#[trigger] occurs_at(template, placeholder(names[n]), j),
    ensures
        expanded_upto(template, names, values, n) == template,
    decreases n,
{
    if n > 0 {
        lemma_expanded_upto_without_placeholders(template, names, values, (n - 1) as nat);
        if n <= values.len() {
            assert forall|j: int| !#[trigger] occurs_at(
                template,
                placeholder(names[n - 1]),
                j,
            ) by {}
            lemma_replaced_without_occurrence(template, placeholder(names[n - 1]), values[n - 1]);
        }
    }
}

/// A template in which the placeholder of no name occurs is left as it is.
pub proof fn lemma_expanded_without_placeholders(
    template: Seq<char>,
    names: Seq<Seq<char>>,
    values: Seq<Seq<char>>,
)
    requires
        forall|n: int, j: int|
            0 <= n < names.len() ==> !#[trigger] occurs_at(template, placeholder(names[n]), j),
    ensures
        expanded(template, names, values) == template,
{
    lemma_expanded_upto_without_placeholders(template, names, values, names.len());
}

/// Expands `template`: for each name in turn, every occurrence of `{name}` is
/// replaced by the value at the name's position. A name without a value is
/// passed over, and so is a placeholder without a name.
pub fn expand(template: &str, names: &Vec<String>, values: &Vec<String>) -> (command: String)
    ensures
        command@ == expanded(template@, names.deep_view(), values.deep_view()),
{
    let mut current = to_chars(template);
    let mut i: usize = 0;
    while i < names.len()
        invariant
            i <= names.len(),
            current@ == expanded_upto(
                template@,
                names.deep_view(),
                values.deep_view(),
                i as nat,
            ),
        decreases names.len() - i,
    {
        if i < values.len() {
            let mut pattern: Vec<char> = Vec::new();
            pattern.push('{');
            let name = to_chars(names[i].as_str());
            append_chars(&mut pattern, &name);
            pattern.push('}');
            let value = to_chars(values[i].as_str());
            proof {
                assert(pattern@ =~= placeholder(names.deep_view()[i as int]));
            }
            current = replace_chars(&current, &pattern, &value);
        }
        i = i + 1;
    }
    from_chars(&current)
}

/// The commands of `table`: `template` expanded once for each row, in the
/// order of the rows.
pub fn expand_rows(table: &Table, template: &str) -> (jobs: Vec<String>)
    ensures
        jobs.deep_view() == table_commands(template@, table@),
{
    let mut jobs: Vec<String> = Vec::new();
    let mut i: usize = 0;
    while i < table.rows.len()
        invariant
            i <= table.rows.len(),
            jobs.len() == i,
            forall|k: int|
                0 <= k < i ==> #[trigger] jobs[k]@ == expanded(
                    template@,
                    table@.headers,
                    table@.rows[k],
                ),
        decreases table.rows.len() - i,
    {
        let command = expand(template, &table.headers, &table.rows[i]);
        jobs.push(command);
        i = i + 1;
    }
    proof {
        assert(jobs.deep_view() =~= table_commands(template@, table@));
    }
    jobs
}

/// What the bytes of a delimited file resolve to: the commands of the table
/// that is read from them, or the malformed-input error where none can be
/// read.
pub open spec fn csv_commands(data: Seq<u8>, template: Seq<char>) -> Result<
    Seq<Seq<char>>,
    ErrorText,
> {
    match csv_table(data) {
        Some(table) => Ok(table_commands(template, table)),
        None => Err(ErrorText::MalformedInput),
    }
}

/// Resolves a delimited table into its commands: the first record names the
/// columns, every other record gives one command.
pub fn read_jobs_from_csv(data: &[u8], command_template: &str) -> (resolved: Result<
    Vec<String>,
    ArrayifyError,
>)
    ensures
        outcome_text(resolved) == csv_commands(data@, command_template@),
{
    match parse_table(data) {
        Ok(table) => Ok(expand_rows(&table, command_template)),
        Err(_) => Err(ArrayifyError::MalformedInput),
    }
}

/// The command of the pair `id`: `template` with `{ID}` replaced by the
/// identifier, then `{R1}` by the path of the first member, then `{R2}` by
/// the path of the second.
pub open spec fn pair_command(template: Seq<char>, files: Seq<FileText>, id: Seq<char>) -> Seq<
    char,
> {
    let first = slot_path(files, id, PairSlot::First).unwrap();
    let second = slot_path(files, id, PairSlot::Second).unwrap();
    replaced(replaced(replaced(template, "{ID}"@, id), "{R1}"@, first), "{R2}"@, second)
}

/// What a directory resolves to. With no identifier at all the input is
/// empty. With an identifier that lacks a member the pair is incomplete, and
/// the first such identifier is named. Otherwise every identifier gives one
/// command, in ascending order of the identifiers.
pub open spec fn pair_commands(files: Seq<FileText>, template: Seq<char>) -> Result<
    Seq<Seq<char>>,
    ErrorText,
> {
    let ids = identifiers(files);
    if ids.len() == 0 {
        Err(ErrorText::EmptyInput)
    } else {
        match first_incomplete(files, ids, 0) {
            Some(at) => Err(ErrorText::IncompletePair(ids[at])),
            None => Ok(Seq::new(ids.len(), |i: int| pair_command(template, files, ids[i]))),
        }
    }
}

/// The identifiers of a directory depend on the names that claim them and not
/// on the order of the files: two lists of files in which the same
/// identifiers are claimed give the same identifiers in the same order.
pub proof fn lemma_identifiers_ignore_order(a: Seq<FileText>, b: Seq<FileText>)
    requires
        forall|id: Seq<char>| claimed(a, id) <==> claimed(b, id),
    ensures
        identifiers(a) == identifiers(b),
{
    lemma_identifiers(a);
    lemma_identifiers(b);
    assert forall|id: Seq<char>| identifiers(a).contains(id) <==> identifiers(b).contains(id) by {
        assert(identifiers(a).contains(id) <==> claimed(a, id));
        assert(identifiers(b).contains(id) <==> claimed(b, id));
    }
    lemma_ascending_unique(identifiers(a), identifiers(b));
}

/// A directory resolves to the empty-input error exactly when none of its
/// file names holds a mark.
pub proof fn lemma_empty_input(files: Seq<FileText>, template: Seq<char>)
    ensures
        pair_commands(files, template) == Err::<Seq<Seq<char>>, ErrorText>(ErrorText::EmptyInput)
            <==> forall|k: int| 0 <= k < files.len() ==> claim_of(#[trigger] files[k].name) is None,
{
    let ids = identifiers(files);
    lemma_identifiers(files);
    if ids.len() > 0 {
        assert(ids.contains(ids[0]));
        assert(claimed(files, ids[0]));
        let k = choose|k: int| 0 <= k < files.len() && #[trigger] belongs_to(files[k], ids[0]);
        assert(claim_of(files[k].name) is Some);
    } else {
        assert forall|k: int| 0 <= k < files.len() implies claim_of(
            #[trigger] files[k].name,
        ) is None by {
            if claim_of(files[k].name) is Some {
                let claim = claim_of(files[k].name).unwrap();
                assert(belongs_to(files[k], claim.id));
                assert(claimed(files, claim.id));
                assert(ids.contains(claim.id));
            }
        }
    }
}

/// A directory in which an identifier has a file for one of its slots and
/// none for the other resolves to the incomplete-pair error. The error names
/// such an identifier: that one, or one that comes before it.
pub proof fn lemma_incomplete_pair(files: Seq<FileText>, template: Seq<char>, id: Seq<char>)
    requires
        slot_path(files, id, PairSlot::First) is Some != slot_path(
            files,
            id,
            PairSlot::Second,
        ) is Some,
    ensures
        pair_commands(files, template) matches Err(ErrorText::IncompletePair(named)) && claimed(
            files,
            named,
        ) && !complete(files, named) && (named == id || precedes(named, id)),
{
    let ids = identifiers(files);
    lemma_identifiers(files);
    lemma_slot_path(files, id, PairSlot::First);
    lemma_slot_path(files, id, PairSlot::Second);
    let slot = if slot_path(files, id, PairSlot::First) is Some {
        PairSlot::First
    } else {
        PairSlot::Second
    };
    let holder = choose|k: int| 0 <= k < files.len() && #[trigger] claims(files[k], id, slot);
    assert(belongs_to(files[holder], id));
    assert(claimed(files, id));
    assert(ids.contains(id));
    let k = choose|k: int| 0 <= k < ids.len() && ids[k] == id;
    lemma_first_incomplete(files, ids, 0);
    let at = first_incomplete(files, ids, 0).unwrap();
    assert(ids.contains(ids[at]));
}

/// A directory in which some identifier is claimed and every claimed
/// identifier has both its files resolves to one command for each
/// identifier, in ascending order of the identifiers.
pub proof fn lemma_complete_pairs(files: Seq<FileText>, template: Seq<char>)
    requires
        exists|id: Seq<char>| claimed(files, id),
        forall|id: Seq<char>| claimed(files, id) ==> complete(files, id),
    ensures
        ascending(identifiers(files)),
        pair_commands(files, template) == Ok::<Seq<Seq<char>>, ErrorText>(
            Seq::new(
                identifiers(files).len(),
                |i: int| pair_command(template, files, identifiers(files)[i]),
            ),
        ),
{
    let ids = identifiers(files);
    lemma_identifiers(files);
    let some = choose|id: Seq<char>| claimed(files, id);
    assert(ids.contains(some));
    lemma_first_incomplete(files, ids, 0);
    if first_incomplete(files, ids, 0) is Some {
        let at = first_incomplete(files, ids, 0).unwrap();
        assert(ids.contains(ids[at]));
    }
}

/// What a classified name claims, as plain text.
spec fn claim_text(found: Option<(Vec<char>, PairSlot)>) -> Option<Claim> {
    match found {
        Some((id, slot)) => Some(Claim { id: id@, slot }),
        None => None,
    }
}

/// Whether `found` holds what each name of `files` claims.
spec fn classified(files: Seq<FileText>, found: Seq<Option<(Vec<char>, PairSlot)>>) -> bool {
    &&& found.len() == files.len()
    &&& forall|k: int| 0 <= k < files.len() ==> claim_text(#[trigger] found[k]) == claim_of(files[k].name)
}

/// What each name of `files` claims.
fn classify_all(files: &Vec<FileEntry>) -> (found: Vec<Option<(Vec<char>, PairSlot)>>)
    ensures
        classified(files.deep_view(), found@),
{
    let mut found: Vec<Option<(Vec<char>, PairSlot)>> = Vec::new();
    let mut i: usize = 0;
    while i < files.len()
        invariant
            i <= files.len(),
            found.len() == i,
            forall|k: int|
                0 <= k < i ==> claim_text(#[trigger] found[k]) == claim_of(
                    files.deep_view()[k].name,
                ),
        decreases files.len() - i,
    {
        let name = to_chars(files[i].name.as_str());
        found.push(classify(&name));
        i = i + 1;
    }
    found
}

/// The identifiers that the names claim, each once, in ascending order.
fn collect_ids(
    files: &Vec<FileEntry>,
    found: &Vec<Option<(Vec<char>, PairSlot)>>,
) -> (ids: Vec<Vec<char>>)
    requires
        classified(files.deep_view(), found@),
    ensures
        views(ids@) == identifiers(files.deep_view()),
{
    let ghost all = files.deep_view();
    let mut ids: Vec<Vec<char>> = Vec::new();
    let mut i: usize = 0;
    proof {
        assert(views(ids@) =~= identifiers(all.take(0)));
    }
    while i < found.len()
        invariant
            i <= found.len(),
            all == files.deep_view(),
            classified(all, found@),
            views(ids@) == identifiers(all.take(i as int)),
        decreases found.len() - i,
    {
        proof {
            assert(all.take(i + 1).drop_last() == all.take(i as int));
            assert(all.take(i + 1).last() == all[i as int]);
        }
        match &found[i] {
            Some((id, _)) => {
                insert_id(&mut ids, id.clone());
            },
            None => {},
        }
        i = i + 1;
    }
    proof {
        assert(all.take(found.len() as int) == all);
    }
    ids
}

/// The file that fills the slot `slot` of the pair `id`: the last that
/// claims it.
fn slot_holder(
    files: &Vec<FileEntry>,
    found: &Vec<Option<(Vec<char>, PairSlot)>>,
    id: &Vec<char>,
    slot: PairSlot,
) -> (holder: Option<usize>)
    requires
        classified(files.deep_view(), found@),
    ensures
        match holder {
            Some(k) => k < files.len() && slot_path(files.deep_view(), id@, slot) == Some(
                files[k as int]@.path,
            ),
            None => slot_path(files.deep_view(), id@, slot) is None,
        },
{
    let ghost all = files.deep_view();
    let mut j: usize = found.len();
    proof {
        assert(all.take(j as int) == all);
    }
    while j > 0
        invariant
            j <= found.len(),
            all == files.deep_view(),
            classified(all, found@),
            slot_path(all, id@, slot) == slot_path(all.take(j as int), id@, slot),
        decreases j,
    {
        proof {
            assert(all.take(j as int).drop_last() == all.take(j - 1));
            assert(all.take(j as int).last() == all[j - 1]);
        }
        let hit = match &found[j - 1] {
            Some((other, place)) => *place == slot && same_chars(other, id),
            None => false,
        };
        assert(hit == claims(all[j - 1], id@, slot));
        if hit {
            return Some(j - 1);
        }
        j = j - 1;
    }
    None
}

/// The command of one complete pair.
fn expand_pair(template: &Vec<char>, id: &Vec<char>, first: &str, second: &str) -> (command:
    String)
    ensures
        command@ == replaced(
            replaced(replaced(template@, "{ID}"@, id@), "{R1}"@, first@),
            "{R2}"@,
            second@,
        ),
{
    let with_id = replace_chars(template, &to_chars("{ID}"), id);
    let with_first = replace_chars(&with_id, &to_chars("{R1}"), &to_chars(first));
    let with_second = replace_chars(&with_first, &to_chars("{R2}"), &to_chars(second));
    from_chars(&with_second)
}

/// Resolves the regular files of a directory into commands, one for each
/// pair. The files are paired by the identifier in their names, and the
/// commands stand in ascending order of the identifiers, whatever the order
/// of `files`; that order decides only which of several files that claim one
/// slot fills it: the last.
pub fn read_jobs_from_dir(files: &Vec<FileEntry>, command_template: &str) -> (resolved: Result<
    Vec<String>,
    ArrayifyError,
>)
    ensures
        outcome_text(resolved) == pair_commands(files.deep_view(), command_template@),
{
    let ghost all = files.deep_view();
    let found = classify_all(files);
    let ids = collect_ids(files, &found);
    let template = to_chars(command_template);
    let mut jobs: Vec<String> = Vec::new();
    let mut i: usize = 0;
    while i < ids.len()
        invariant
            i <= ids.len(),
            all == files.deep_view(),
            classified(all, found@),
            views(ids@) == identifiers(all),
            template@ == command_template@,
            jobs.len() == i,
            first_incomplete(all, views(ids@), 0) == first_incomplete(all, views(ids@), i as int),
            forall|k: int|
                0 <= k < i ==> #[trigger] jobs[k]@ == pair_command(
                    command_template@,
                    all,
                    views(ids@)[k],
                ),
        decreases ids.len() - i,
    {
        let first = slot_holder(files, &found, &ids[i], PairSlot::First);
        let second = slot_holder(files, &found, &ids[i], PairSlot::Second);
        match (first, second) {
            (Some(a), Some(b)) => {
                let command = expand_pair(
                    &template,
                    &ids[i],
                    files[a].path.as_str(),
                    files[b].path.as_str(),
                );
                jobs.push(command);
            },
            _ => {
                let id = from_chars(&ids[i]);
                return Err(ArrayifyError::IncompletePair(id));
            },
        }
        i = i + 1;
    }
    if jobs.len() == 0 {
        return Err(ArrayifyError::EmptyInput);
    }
    proof {
        assert(jobs.deep_view() =~= Seq::new(
            ids.len() as nat,
            |i: int| pair_command(command_template@, all, views(ids@)[i]),
        ));
    }
    Ok(jobs)
}

} // verus!
