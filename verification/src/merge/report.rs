//! What a merge says: commit messages, the diffstat and the closing line.

use vstd::prelude::*;

use crate::merge::content::{binary, bytes_to_lines, is_binary_blob};
use crate::merge::options::PullMergeOptions;
use crate::merge::whitespace::utf8_lossy_text;
use crate::merge::PullMergeError;
use crate::object::ObjectId;
use crate::text::{
    concat2, concat3, concat4, concat5, decimal, has_prefix, lines, lines_seq, opt_text, repeat,
    repeat_char, starts_with, texts, trim, trim_seq, usize_text,
};

verus! {

/// A commit of the history: its name and its message.
#[derive(Debug)]
pub struct LoggedCommit {
    pub id: ObjectId,
    pub message: String,
}

/// A line that tells something of the commit: not part of a signature.
pub open spec fn is_subject(line: Seq<char>) -> bool {
    line.len() > 0 && !has_prefix(line, "gpgsig"@) && !has_prefix(line, "-----"@) && !has_prefix(
        line,
        "Version:"@,
    )
}

/// The last of the lines that is a subject, trimmed.
pub open spec fn last_subject(lines: Seq<Seq<char>>) -> Option<Seq<char>>
    decreases lines.len(),
{
    if lines.len() == 0 {
        None
    } else if is_subject(trim_seq(lines.last())) {
        Some(trim_seq(lines.last()))
    } else {
        last_subject(lines.drop_last())
    }
}

/// The line that stands for a commit in a shortlog: the last one that is neither empty nor
/// part of a signature.
pub fn first_non_empty_line(message: &str) -> (r: Option<String>)
    ensures
        opt_text(r) == last_subject(lines_seq(message@)),
{
    let all = lines(message);
    let ghost views = texts(all@);
    let mut i: usize = all.len();
    assert(views.take(i as int) =~= views);
    while i > 0
        invariant
            i <= all@.len(),
            views == texts(all@),
            views == lines_seq(message@),
            last_subject(views) == last_subject(views.take(i as int)),
        decreases i,
    {
        proof {
            assert(views.take(i as int).last() == all@[i - 1]@);
            assert(views.take(i as int).drop_last() =~= views.take(i - 1));
        }
        let line = trim(all[i - 1].as_str());
        if !line.as_str().is_empty() && !starts_with(line.as_str(), "gpgsig") && !starts_with(
            line.as_str(),
            "-----",
        ) && !starts_with(line.as_str(), "Version:") {
            return Some(line);
        }
        i = i - 1;
    }
    None
}

pub open spec fn commit_known(commits: Seq<LoggedCommit>, id: ObjectId) -> bool {
    exists|i: int| 0 <= i < commits.len() && (#[trigger] commits[i]).id == id
}

/// The subjects of the commits of `target` that `current` does not have, `limit` at most.
pub open spec fn shortlog_subjects(
    current: Seq<LoggedCommit>,
    target: Seq<LoggedCommit>,
    limit: nat,
) -> Seq<Seq<char>>
    decreases target.len(),
{
    if target.len() == 0 {
        Seq::empty()
    } else {
        let head = shortlog_subjects(current, target.drop_last(), limit);
        if head.len() >= limit || commit_known(current, target.last().id) {
            head
        } else {
            match last_subject(lines_seq(target.last().message@)) {
                Some(subject) => head.push(subject),
                None => head,
            }
        }
    }
}

/// The list of subjects, one per line.
pub open spec fn shortlog_lines(subjects: Seq<Seq<char>>) -> Seq<char>
    decreases subjects.len(),
{
    if subjects.len() == 0 {
        Seq::empty()
    } else {
        shortlog_lines(subjects.drop_last()) + "* "@ + subjects.last() + "\n"@
    }
}

/// A message with a shortlog below it, where there is anything to list.
pub open spec fn with_shortlog(message: Seq<char>, subjects: Seq<Seq<char>>) -> Seq<char> {
    if subjects.len() == 0 {
        message
    } else {
        message + "\n\n"@ + shortlog_lines(subjects)
    }
}

fn knows_commit(commits: &Vec<LoggedCommit>, id: ObjectId) -> (r: bool)
    ensures
        r == commit_known(commits@, id),
{
    let mut i: usize = 0;
    while i < commits.len()
        invariant
            i <= commits@.len(),
            forall|j: int| 0 <= j < i ==> (#[trigger] commits@[j]).id != id,
        decreases commits@.len() - i,
    {
        if commits[i].id == id {
            assert(commits@[i as int].id == id);
            return true;
        }
        i = i + 1;
    }
    false
}

/// Adds to `message` the subjects of the commits that a merge brings in.
pub fn append_merge_shortlog(
    message: &mut String,
    current: &Vec<LoggedCommit>,
    target: &Vec<LoggedCommit>,
    limit: usize,
)
    ensures
        final(message)@ == with_shortlog(
            old(message)@,
            shortlog_subjects(current@, target@, limit as nat),
        ),
{
    let mut subjects: Vec<String> = Vec::new();
    let mut i: usize = 0;
    assert(target@.take(0) =~= Seq::<LoggedCommit>::empty());
    assert(texts(subjects@) =~= Seq::<Seq<char>>::empty());
    while i < target.len()
        invariant
            i <= target@.len(),
            texts(subjects@) == shortlog_subjects(current@, target@.take(i as int), limit as nat),
        decreases target@.len() - i,
    {
        let ghost before = subjects@;
        proof {
            assert(target@.take(i as int + 1).drop_last() =~= target@.take(i as int));
            assert(target@.take(i as int + 1).last() == target@[i as int]);
        }
        if subjects.len() < limit && !knows_commit(current, target[i].id) {
            if let Some(subject) = first_non_empty_line(target[i].message.as_str()) {
                let ghost sv = subject@;
                subjects.push(subject);
                assert(texts(subjects@) =~= texts(before).push(sv));
            }
        }
        i = i + 1;
    }
    assert(target@.take(target@.len() as int) =~= target@);
    if subjects.is_empty() {
        return ;
    }
    let ghost all = texts(subjects@);
    message.append("\n\n");
    let ghost head = message@;
    let mut k: usize = 0;
    assert(all.take(0) =~= Seq::<Seq<char>>::empty());
    assert(message@ =~= head + shortlog_lines(all.take(0)));
    while k < subjects.len()
        invariant
            k <= subjects@.len(),
            all == texts(subjects@),
            message@ == head + shortlog_lines(all.take(k as int)),
        decreases subjects@.len() - k,
    {
        proof {
            assert(all.take(k as int + 1).drop_last() =~= all.take(k as int));
            assert(all.take(k as int + 1).last() == subjects@[k as int]@);
        }
        message.append("* ");
        message.append(subjects[k].as_str());
        message.append("\n");
        assert(message@ =~= head + shortlog_lines(all.take(k as int + 1)));
        k = k + 1;
    }
    assert(all.take(all.len() as int) =~= all);
}

/// Who signs off a commit.
#[derive(Debug)]
pub struct SignoffIdentity {
    pub name: String,
    pub email: String,
}

pub open spec fn first_some(a: Option<Seq<char>>, b: Option<Seq<char>>) -> Option<Seq<char>> {
    match a {
        Some(_) => a,
        None => b,
    }
}

/// Who signs off: the configured name and mail address, else those of the environment.
pub fn resolve_signoff_identity(
    config_name: Option<String>,
    config_email: Option<String>,
    env_name: Option<String>,
    env_email: Option<String>,
) -> (r: Result<SignoffIdentity, PullMergeError>)
    ensures
        match (
            first_some(opt_text(config_name), opt_text(env_name)),
            first_some(opt_text(config_email), opt_text(env_email)),
        ) {
            (Some(name), Some(email)) => r matches Ok(who) && who.name@ == name && who.email@ == email,
            _ => r matches Err(PullMergeError::SignoffIdentity),
        },
{
    let name = match config_name {
        Some(name) => Some(name),
        None => env_name,
    };
    let email = match config_email {
        Some(email) => Some(email),
        None => env_email,
    };
    match (name, email) {
        (Some(name), Some(email)) => Ok(SignoffIdentity { name, email }),
        _ => Err(PullMergeError::SignoffIdentity),
    }
}

/// The trailer that a sign-off adds.
pub open spec fn signoff_trailer(name: Seq<char>, email: Seq<char>) -> Seq<char> {
    "\n\nSigned-off-by: "@ + name + " <"@ + email + ">"@
}

/// The message before a shortlog and a sign-off: the given one, or what is merged into what.
pub open spec fn merge_subject(
    upstream: Seq<char>,
    head_name: Seq<char>,
    options: PullMergeOptions,
) -> Seq<char> {
    match options.message {
        Some(message) => message@,
        None => "Merge "@ + upstream + " into "@ + (match options.into_name {
            Some(name) => name@,
            None => head_name,
        }),
    }
}

/// The commits on both sides of a merge, newest first.
#[derive(Debug)]
pub struct MergeHistory {
    pub current: Vec<LoggedCommit>,
    pub target: Vec<LoggedCommit>,
}

/// The message before a sign-off.
pub open spec fn merge_body(
    upstream: Seq<char>,
    head_name: Seq<char>,
    history: Option<MergeHistory>,
    options: PullMergeOptions,
) -> Seq<char> {
    let subject = merge_subject(upstream, head_name, options);
    match (options.log, history) {
        (Some(limit), Some(h)) => if limit > 0 {
            with_shortlog(subject, shortlog_subjects(h.current@, h.target@, limit as nat))
        } else {
            subject
        },
        _ => subject,
    }
}

/// The message of a merge commit.
pub fn merge_commit_message(
    upstream: &str,
    head_name: &str,
    history: &Option<MergeHistory>,
    options: &PullMergeOptions,
    identity: Result<SignoffIdentity, PullMergeError>,
) -> (r: Result<String, PullMergeError>)
    ensures
        if !options.signoff {
            r matches Ok(m) && m@ == merge_body(upstream@, head_name@, *history, *options)
        } else {
            match identity {
                Ok(who) => r matches Ok(m) && m@ == merge_body(
                    upstream@,
                    head_name@,
                    *history,
                    *options,
                ) + signoff_trailer(who.name@, who.email@),
                Err(e) => r == Err::<String, PullMergeError>(e),
            }
        },
{
    let mut message = match &options.message {
        Some(message) => message.clone(),
        None => {
            let into = match &options.into_name {
                Some(name) => name.as_str(),
                None => head_name,
            };
            concat4("Merge ", upstream, " into ", into)
        },
    };
    if let (Some(limit), Some(h)) = (options.log, history) {
        if limit > 0 {
            append_merge_shortlog(&mut message, &h.current, &h.target, limit);
        }
    }
    if !options.signoff {
        return Ok(message);
    }
    match identity {
        Ok(who) => {
            let trailer = concat5(
                "\n\nSigned-off-by: ",
                who.name.as_str(),
                " <",
                who.email.as_str(),
                ">",
            );
            Ok(concat2(message.as_str(), trailer.as_str()))
        },
        Err(e) => Err(e),
    }
}

/// What happened to one line between two versions of a file.
#[derive(Debug, Clone, Copy, PartialEq, Eq, Structural)]
pub enum LineOp {
    Insert,
    Delete,
    Equal,
}

/// The tags of the edits that `git_internal::diff::compute_diff` finds between two lists of
/// lines: 1 for an insertion, 2 for a deletion, 0 for a line that both have.
pub uninterp spec fn line_edit_tags(old_lines: Seq<Seq<char>>, new_lines: Seq<Seq<char>>) -> Seq<int>;

pub open spec fn op_tag(op: LineOp) -> int {
    match op {
        LineOp::Insert => 1,
        LineOp::Delete => 2,
        LineOp::Equal => 0,
    }
}

/// `git_internal::diff::compute_diff`: the line edits from `old_lines` to `new_lines`, of which
/// the kinds are kept, named [`line_edit_tags`].
#[verifier::external_body]
fn line_edits(old_lines: &Vec<String>, new_lines: &Vec<String>) -> (r: Vec<LineOp>)
    ensures
        r@.map_values(|op: LineOp| op_tag(op)) == line_edit_tags(
            texts(old_lines@),
            texts(new_lines@),
        ),
{
    git_internal::diff::compute_diff(old_lines, new_lines).into_iter().map(|op| match op {
        git_internal::diff::DiffOperation::Insert { .. } => LineOp::Insert,
        git_internal::diff::DiffOperation::Delete { .. } => LineOp::Delete,
        git_internal::diff::DiffOperation::Equal { .. } => LineOp::Equal,
    }).collect()
}

/// How often `tag` occurs.
pub open spec fn tag_count(tags: Seq<int>, tag: int) -> nat
    decreases tags.len(),
{
    if tags.len() == 0 {
        0
    } else {
        tag_count(tags.drop_last(), tag) + (if tags.last() == tag {
            1nat
        } else {
            0nat
        })
    }
}

pub fn count_ops(ops: &Vec<LineOp>, wanted: LineOp) -> (r: usize)
    ensures
        r == tag_count(ops@.map_values(|op: LineOp| op_tag(op)), op_tag(wanted)),
        r <= ops@.len(),
{
    let ghost tags = ops@.map_values(|op: LineOp| op_tag(op));
    let mut n: usize = 0;
    let mut i: usize = 0;
    assert(tags.take(0) =~= Seq::<int>::empty());
    while i < ops.len()
        invariant
            i <= ops@.len(),
            n <= i,
            tags == ops@.map_values(|op: LineOp| op_tag(op)),
            n == tag_count(tags.take(i as int), op_tag(wanted)),
        decreases ops@.len() - i,
    {
        proof {
            assert(tags.take(i as int + 1).drop_last() =~= tags.take(i as int));
            assert(tags.take(i as int + 1).last() == op_tag(ops@[i as int]));
        }
        if ops[i] == wanted {
            n = n + 1;
        }
        i = i + 1;
    }
    assert(tags.take(tags.len() as int) =~= tags);
    n
}

/// Lines inserted and deleted, or that the file is binary.
#[derive(Debug, Clone, Copy, PartialEq, Eq, Structural)]
pub struct LineDelta {
    pub insertions: usize,
    pub deletions: usize,
    pub binary: bool,
}

pub open spec fn content_lines(data: Option<Seq<u8>>) -> Seq<Seq<char>> {
    match data {
        Some(bytes) => lines_seq(utf8_lossy_text(bytes)),
        None => Seq::empty(),
    }
}

pub open spec fn opt_bytes(data: Option<Vec<u8>>) -> Option<Seq<u8>> {
    match data {
        Some(bytes) => Some(bytes@),
        None => None,
    }
}

pub open spec fn is_binary_change(old_data: Option<Seq<u8>>, new_data: Option<Seq<u8>>) -> bool {
    (old_data matches Some(o) && binary(o)) || (new_data matches Some(n) && binary(n))
}

/// What changed in the lines between two versions of a file.
pub open spec fn is_line_delta(
    d: LineDelta,
    old_data: Option<Seq<u8>>,
    new_data: Option<Seq<u8>>,
) -> bool {
    let tags = line_edit_tags(content_lines(old_data), content_lines(new_data));
    &&& d.binary == is_binary_change(old_data, new_data)
    &&& d.insertions == (if d.binary {
        0
    } else {
        tag_count(tags, 1)
    })
    &&& d.deletions == (if d.binary {
        0
    } else {
        tag_count(tags, 2)
    })
}

/// Counts inserted and deleted lines between two versions of a file; a version that is not
/// there has no lines, and a binary version has none to count.
pub fn file_line_delta(old_data: &Option<Vec<u8>>, new_data: &Option<Vec<u8>>) -> (r: LineDelta)
    ensures
        is_line_delta(r, opt_bytes(*old_data), opt_bytes(*new_data)),
{
    let old_binary = match old_data {
        Some(data) => is_binary_blob(data.as_slice()),
        None => false,
    };
    let new_binary = match new_data {
        Some(data) => is_binary_blob(data.as_slice()),
        None => false,
    };
    if old_binary || new_binary {
        return LineDelta { insertions: 0, deletions: 0, binary: true };
    }
    let old_lines = match old_data {
        Some(data) => bytes_to_lines(data.as_slice()),
        None => Vec::new(),
    };
    let new_lines = match new_data {
        Some(data) => bytes_to_lines(data.as_slice()),
        None => Vec::new(),
    };
    assert(texts(Seq::<String>::empty()) =~= Seq::<Seq<char>>::empty());
    let ops = line_edits(&old_lines, &new_lines);
    LineDelta {
        insertions: count_ops(&ops, LineOp::Insert),
        deletions: count_ops(&ops, LineOp::Delete),
        binary: false,
    }
}

/// One file of a diffstat. `plus` and `minus` are the lengths of its bars.
#[derive(Debug)]
pub struct StatRow {
    pub path: String,
    pub insertions: usize,
    pub deletions: usize,
    pub binary: bool,
    pub plus: usize,
    pub minus: usize,
}

pub open spec fn row_total(row: StatRow) -> nat {
    (row.insertions + row.deletions) as nat
}

/// The length of a bar: the count itself where all counts are small, else the scaled count,
/// but one at least for anything that changed.
pub open spec fn bar(count: nat, max_total: nat, scaled: nat) -> nat {
    if max_total <= 60 {
        count
    } else if count == 0 {
        0
    } else if scaled == 0 {
        1
    } else {
        scaled
    }
}

pub fn bar_length(count: usize, max_total: usize, scaled: usize) -> (r: usize)
    ensures
        r == bar(count as nat, max_total as nat, scaled as nat),
{
    if max_total <= 60 {
        count
    } else if count == 0 {
        0
    } else if scaled == 0 {
        1
    } else {
        scaled
    }
}

pub open spec fn max_path_bytes(rows: Seq<StatRow>) -> nat
    decreases rows.len(),
{
    if rows.len() == 0 {
        0
    } else {
        let head = max_path_bytes(rows.drop_last());
        let here = vstd::utf8::encode_utf8(rows.last().path@).len() as usize as nat;
        if here > head {
            here
        } else {
            head
        }
    }
}

pub open spec fn max_count_width(rows: Seq<StatRow>) -> nat
    decreases rows.len(),
{
    if rows.len() == 0 {
        0
    } else {
        let head = max_count_width(rows.drop_last());
        let here = decimal(row_total(rows.last())).len();
        if here > head {
            here
        } else {
            head
        }
    }
}

pub open spec fn sum_insertions(rows: Seq<StatRow>) -> nat
    decreases rows.len(),
{
    if rows.len() == 0 {
        0
    } else {
        sum_insertions(rows.drop_last()) + rows.last().insertions as nat
    }
}

pub open spec fn sum_deletions(rows: Seq<StatRow>) -> nat
    decreases rows.len(),
{
    if rows.len() == 0 {
        0
    } else {
        sum_deletions(rows.drop_last()) + rows.last().deletions as nat
    }
}

pub open spec fn pad_right(s: Seq<char>, width: nat) -> Seq<char> {
    if s.len() < width {
        s + repeat_char(' ', (width - s.len()) as nat)
    } else {
        s
    }
}

pub open spec fn pad_left(s: Seq<char>, width: nat) -> Seq<char> {
    if s.len() < width {
        repeat_char(' ', (width - s.len()) as nat) + s
    } else {
        s
    }
}

/// The line of one file.
pub open spec fn row_line(row: StatRow, name_width: nat, count_width: nat) -> Seq<char> {
    if row.binary {
        " "@ + pad_right(row.path@, name_width) + " | Bin\n"@
    } else {
        " "@ + pad_right(row.path@, name_width) + " | "@ + pad_left(decimal(row_total(row)), count_width)
            + (" "@ + repeat_char('+', row.plus as nat) + repeat_char('-', row.minus as nat) + "\n"@)
    }
}

pub open spec fn row_lines(rows: Seq<StatRow>, name_width: nat, count_width: nat) -> Seq<char>
    decreases rows.len(),
{
    if rows.len() == 0 {
        Seq::empty()
    } else {
        row_lines(rows.drop_last(), name_width, count_width) + row_line(
            rows.last(),
            name_width,
            count_width,
        )
    }
}

pub open spec fn plural(n: nat) -> Seq<char> {
    if n == 1 {
        ""@
    } else {
        "s"@
    }
}

/// The closing line of a diffstat.
pub open spec fn stat_summary(files: nat, insertions: nat, deletions: nat) -> Seq<char> {
    " "@ + decimal(files) + " file"@ + plural(files) + " changed"@ + (if insertions > 0 {
        ", "@ + decimal(insertions) + " insertion"@ + plural(insertions) + "(+)"@
    } else {
        ""@
    }) + (if deletions > 0 {
        ", "@ + decimal(deletions) + " deletion"@ + plural(deletions) + "(-)"@
    } else {
        ""@
    })
}

/// The diffstat of the changed files, `None` where nothing changed.
pub open spec fn diffstat_text(rows: Seq<StatRow>) -> Option<Seq<char>> {
    if rows.len() == 0 {
        None
    } else {
        Some(
            row_lines(rows, max_path_bytes(rows), max_count_width(rows)) + stat_summary(
                rows.len(),
                sum_insertions(rows),
                sum_deletions(rows),
            ),
        )
    }
}

fn padded_right(s: &str, width: usize) -> (r: String)
    ensures
        r@ == pad_right(s@, width as nat),
{
    let n: usize = s.unicode_len();
    if n < width {
        let pad = repeat(' ', width - n);
        concat2(s, pad.as_str())
    } else {
        s.to_owned()
    }
}

fn padded_left(s: &str, width: usize) -> (r: String)
    ensures
        r@ == pad_left(s@, width as nat),
{
    let n: usize = s.unicode_len();
    if n < width {
        let pad = repeat(' ', width - n);
        concat2(pad.as_str(), s)
    } else {
        s.to_owned()
    }
}

fn plural_text(n: usize) -> (r: &'static str)
    ensures
        r@ == plural(n as nat),
{
    if n == 1 {
        ""
    } else {
        "s"
    }
}

proof fn lemma_sums_grow(rows: Seq<StatRow>, n: int)
    requires
        0 <= n <= rows.len(),
    ensures
        sum_insertions(rows.take(n)) <= sum_insertions(rows),
        sum_deletions(rows.take(n)) <= sum_deletions(rows),
    decreases rows.len() - n,
{
    if n < rows.len() {
        lemma_sums_grow(rows, n + 1);
        assert(rows.take(n + 1).drop_last() =~= rows.take(n));
    } else {
        assert(rows.take(n) =~= rows);
    }
}

/// Formats a diffstat (`path | N +++--` lines plus a summary line).
pub fn merge_diffstat(rows: &Vec<StatRow>) -> (r: Option<String>)
    requires
        sum_insertions(rows@) + sum_deletions(rows@) <= usize::MAX,
    ensures
        opt_text(r) == diffstat_text(rows@),
{
    if rows.is_empty() {
        return None;
    }
    let ghost all = rows@;
    let mut name_width: usize = 0;
    let mut count_width: usize = 0;
    let mut insertions: usize = 0;
    let mut deletions: usize = 0;
    let mut i: usize = 0;
    assert(all.take(0) =~= Seq::<StatRow>::empty());
    while i < rows.len()
        invariant
            i <= rows@.len(),
            all == rows@,
            sum_insertions(all) + sum_deletions(all) <= usize::MAX,
            name_width == max_path_bytes(all.take(i as int)),
            count_width == max_count_width(all.take(i as int)),
            insertions == sum_insertions(all.take(i as int)),
            deletions == sum_deletions(all.take(i as int)),
        decreases rows@.len() - i,
    {
        proof {
            assert(all.take(i as int + 1).drop_last() =~= all.take(i as int));
            assert(all.take(i as int + 1).last() == all[i as int]);
            lemma_sums_grow(all, i as int + 1);
        }
        let bytes: usize = rows[i].path.as_str().len();
        if bytes > name_width {
            name_width = bytes;
        }
        let shown = usize_text(rows[i].insertions + rows[i].deletions);
        let width: usize = shown.as_str().unicode_len();
        if width > count_width {
            count_width = width;
        }
        insertions = insertions + rows[i].insertions;
        deletions = deletions + rows[i].deletions;
        i = i + 1;
    }
    assert(all.take(all.len() as int) =~= all);
    let mut out = String::new();
    let mut k: usize = 0;
    while k < rows.len()
        invariant
            k <= rows@.len(),
            all == rows@,
            sum_insertions(all) + sum_deletions(all) <= usize::MAX,
            out@ == row_lines(all.take(k as int), name_width as nat, count_width as nat),
        decreases rows@.len() - k,
    {
        let ghost before = out@;
        proof {
            assert(all.take(k as int + 1).drop_last() =~= all.take(k as int));
            assert(all.take(k as int + 1).last() == all[k as int]);
            lemma_sums_grow(all, k as int + 1);
        }
        let name = padded_right(rows[k].path.as_str(), name_width);
        if rows[k].binary {
            let line = concat3(" ", name.as_str(), " | Bin\n");
            out.append(line.as_str());
        } else {
            let shown = usize_text(rows[k].insertions + rows[k].deletions);
            let count = padded_left(shown.as_str(), count_width);
            let plus = repeat('+', rows[k].plus);
            let minus = repeat('-', rows[k].minus);
            let bars = concat4(" ", plus.as_str(), minus.as_str(), "\n");
            let line = concat5(" ", name.as_str(), " | ", count.as_str(), bars.as_str());
            out.append(line.as_str());
        }
        k = k + 1;
    }
    let files = usize_text(rows.len());
    let head = concat5(" ", files.as_str(), " file", plural_text(rows.len()), " changed");
    let ins = if insertions > 0 {
        let n = usize_text(insertions);
        concat5(", ", n.as_str(), " insertion", plural_text(insertions), "(+)")
    } else {
        "".to_owned()
    };
    let del = if deletions > 0 {
        let n = usize_text(deletions);
        concat5(", ", n.as_str(), " deletion", plural_text(deletions), "(-)")
    } else {
        "".to_owned()
    };
    let summary = concat3(head.as_str(), ins.as_str(), del.as_str());
    Some(concat2(out.as_str(), summary.as_str()))
}

/// A commit's subject is the last of its lines, without the space around it, that says anything and is
/// not of a signature.
pub proof fn law_subject_is_the_last_line_that_counts(lines: Seq<Seq<char>>, line: Seq<char>)
    ensures
        last_subject(Seq::empty()) is None,
        ({
            let t = trim_seq(line);
            let counts = t.len() > 0 && !"gpgsig"@.is_prefix_of(t) && !"-----"@.is_prefix_of(t)
                && !"Version:"@.is_prefix_of(t);
            &&& counts ==> last_subject(lines.push(line)) == Some(t)
            &&& !counts ==> last_subject(lines.push(line)) == last_subject(lines)
        }),
{
    assert(lines.push(line).drop_last() =~= lines);
    let t = trim_seq(line);
    lemma_prefix_is_one(t, "gpgsig"@);
    lemma_prefix_is_one(t, "-----"@);
    lemma_prefix_is_one(t, "Version:"@);
}

proof fn lemma_prefix_is_one(s: Seq<char>, p: Seq<char>)
    ensures
        has_prefix(s, p) <==> p.is_prefix_of(s),
{
    if p.is_prefix_of(s) {
        assert(s.take(p.len() as int) =~= p);
    }
    if has_prefix(s, p) {
        assert(s.subrange(0, p.len() as int) =~= p);
    }
}

/// A log lists, in their order and up to the limit, the subjects of the target's commits that the
/// current side does not have.
pub proof fn law_log_lists_what_is_new(
    current: Seq<LoggedCommit>,
    target: Seq<LoggedCommit>,
    commit: LoggedCommit,
    limit: nat,
)
    ensures
        shortlog_subjects(current, Seq::empty(), limit) == Seq::<Seq<char>>::empty(),
        shortlog_subjects(current, target, limit).len() <= limit,
        ({
            let before = shortlog_subjects(current, target, limit);
            let after = shortlog_subjects(current, target.push(commit), limit);
            let known = exists|i: int| 0 <= i < current.len() && (#[trigger] current[i]).id == commit.id;
            &&& before.len() >= limit || known ==> after == before
            &&& before.len() < limit && !known ==> match last_subject(lines_seq(commit.message@)) {
                Some(subject) => after == before.push(subject),
                None => after == before,
            }
        }),
    decreases target.len(),
{
    assert(target.push(commit).drop_last() =~= target);
    if target.len() > 0 {
        law_log_lists_what_is_new(current, target.drop_last(), target.last(), limit);
        assert(target =~= target.drop_last().push(target.last()));
    }
}

/// A log stands after the message and an empty line, a line for each subject in their order; without a
/// subject the message stays as it is.
pub proof fn law_log_follows_the_message(
    message: Seq<char>,
    a: Seq<Seq<char>>,
    b: Seq<Seq<char>>,
    subject: Seq<char>,
)
    ensures
        with_shortlog(message, Seq::empty()) == message,
        a.len() > 0 ==> with_shortlog(message, a) == message + "\n\n"@ + shortlog_lines(a),
        shortlog_lines(a + b) == shortlog_lines(a) + shortlog_lines(b),
        shortlog_lines(seq![subject]) == "* "@ + subject + "\n"@,
    decreases b.len(),
{
    assert(seq![subject].drop_last() =~= Seq::<Seq<char>>::empty());
    assert(shortlog_lines(seq![subject].drop_last()) =~= Seq::<char>::empty());
    assert(shortlog_lines(seq![subject]) =~= "* "@ + subject + "\n"@);
    if b.len() == 0 {
        assert(a + b =~= a);
        assert(shortlog_lines(a) + shortlog_lines(b) =~= shortlog_lines(a));
    } else {
        assert((a + b).drop_last() =~= a + b.drop_last());
        law_log_follows_the_message(message, a, b.drop_last(), subject);
        assert(shortlog_lines(a + b) =~= shortlog_lines(a) + shortlog_lines(b));
    }
}

/// A merge's message begins with the one that was given; without one it names what is merged and what it
/// is merged into, by the name that was asked for where there is one. A log follows only where one was
/// asked for, and a sign-off names the signer.
pub proof fn law_message_of_a_merge(
    upstream: Seq<char>,
    head: Seq<char>,
    history: Option<MergeHistory>,
    options: PullMergeOptions,
    name: Seq<char>,
    email: Seq<char>,
)
    ensures
        ({
            let body = merge_body(upstream, head, history, options);
            &&& options.message matches Some(m) ==> m@.is_prefix_of(body)
            &&& options.message is None && options.into_name is None ==> ("Merge "@ + upstream + " into "@
                + head).is_prefix_of(body)
            &&& options.message is None ==> (options.into_name matches Some(into) ==> ("Merge "@ + upstream
                + " into "@ + into@).is_prefix_of(body))
            &&& options.log is None || options.log == Some(0usize) || history is None ==> body
                == merge_subject(upstream, head, options)
            &&& options.log matches Some(limit) ==> (limit > 0 ==> (history matches Some(h) ==> body
                == with_shortlog(
                merge_subject(upstream, head, options),
                shortlog_subjects(h.current@, h.target@, limit as nat),
            )))
        }),
        signoff_trailer(name, email) == "\n\nSigned-off-by: "@ + name + " <"@ + email + ">"@,
{
    let subject = merge_subject(upstream, head, options);
    if let (Some(limit), Some(h)) = (options.log, history) {
        if limit > 0 {
            let s = shortlog_subjects(h.current@, h.target@, limit as nat);
            assert(subject.is_prefix_of(with_shortlog(subject, s)));
        }
    }
}

/// What is configured comes before what the environment says.
pub proof fn law_first_that_is_there(a: Option<Seq<char>>, b: Option<Seq<char>>)
    ensures
        a is Some ==> first_some(a, b) == a,
        a is None ==> first_some(a, b) == b,
{
}

/// Edits are counted one by one, each kind for itself.
pub proof fn law_edits_are_counted(tags: Seq<int>, tag: int, other: int)
    ensures
        tag_count(Seq::empty(), tag) == 0,
        tag_count(tags.push(tag), tag) == tag_count(tags, tag) + 1,
        other != tag ==> tag_count(tags.push(other), tag) == tag_count(tags, tag),
        op_tag(LineOp::Insert) != op_tag(LineOp::Delete) && op_tag(LineOp::Insert) != op_tag(LineOp::Equal)
            && op_tag(LineOp::Delete) != op_tag(LineOp::Equal),
{
    assert(tags.push(tag).drop_last() =~= tags);
    assert(tags.push(other).drop_last() =~= tags);
}

/// What a change of a file comes to: the lines that an edit of one content into the other inserts and
/// deletes; of a binary content on either side no lines are counted. A side that is not there has none.
pub proof fn law_lines_of_a_change(d: LineDelta, old_data: Option<Seq<u8>>, new_data: Option<Seq<u8>>)
    requires
        is_line_delta(d, old_data, new_data),
    ensures
        d.binary <==> (old_data matches Some(o) && o.contains(0u8)) || (new_data matches Some(n)
            && n.contains(0u8)),
        d.binary ==> d.insertions == 0 && d.deletions == 0,
        !d.binary ==> {
            let before = match old_data {
                Some(o) => lines_seq(utf8_lossy_text(o)),
                None => Seq::<Seq<char>>::empty(),
            };
            let after = match new_data {
                Some(n) => lines_seq(utf8_lossy_text(n)),
                None => Seq::<Seq<char>>::empty(),
            };
            &&& d.insertions == tag_count(line_edit_tags(before, after), op_tag(LineOp::Insert))
            &&& d.deletions == tag_count(line_edit_tags(before, after), op_tag(LineOp::Delete))
        },
{
}

/// A bar is as long as its count where every bar fits, and else as long as was scaled; but a count that
/// is not nought shows, and nought does not.
pub proof fn law_bar_shows_its_count(count: nat, widest: nat, scaled: nat)
    ensures
        widest <= 60 ==> bar(count, widest, scaled) == count,
        widest > 60 && count > 0 && scaled > 0 ==> bar(count, widest, scaled) == scaled,
        widest > 60 && count > 0 && scaled == 0 ==> bar(count, widest, scaled) == 1,
        bar(0, widest, scaled) == 0,
        count > 0 ==> bar(count, widest, scaled) > 0,
{
}

/// The columns are as wide as their widest entry, and the totals count every row.
pub proof fn law_columns_and_totals(rows: Seq<StatRow>, row: StatRow)
    ensures
        max_path_bytes(Seq::empty()) == 0 && max_count_width(Seq::empty()) == 0,
        sum_insertions(Seq::empty()) == 0 && sum_deletions(Seq::empty()) == 0,
        sum_insertions(rows.push(row)) == sum_insertions(rows) + row.insertions,
        sum_deletions(rows.push(row)) == sum_deletions(rows) + row.deletions,
        ({
            let here = vstd::utf8::encode_utf8(row.path@).len() as usize as nat;
            let digits = decimal((row.insertions + row.deletions) as nat).len();
            &&& max_path_bytes(rows.push(row)) >= here && max_path_bytes(rows.push(row)) >= max_path_bytes(
                rows,
            )
            &&& max_path_bytes(rows.push(row)) == here || max_path_bytes(rows.push(row)) == max_path_bytes(
                rows,
            )
            &&& max_count_width(rows.push(row)) >= digits && max_count_width(rows.push(row))
                >= max_count_width(rows)
            &&& max_count_width(rows.push(row)) == digits || max_count_width(rows.push(row))
                == max_count_width(rows)
        }),
{
    assert(rows.push(row).drop_last() =~= rows);
}

/// A text is padded with spaces up to a width, after it or before it, and never cut.
pub proof fn law_padding(s: Seq<char>, width: nat, i: int)
    ensures
        s.len() >= width ==> pad_right(s, width) == s && pad_left(s, width) == s,
        s.len() < width ==> {
            &&& pad_right(s, width).len() == width && s.is_prefix_of(pad_right(s, width))
            &&& pad_left(s, width).len() == width && s.is_suffix_of(pad_left(s, width))
            &&& s.len() <= i < width ==> pad_right(s, width)[i] == ' '
            &&& 0 <= i < width - s.len() ==> pad_left(s, width)[i] == ' '
        },
{
}

/// A row shows the path, the number of lines that changed, and a bar of as many signs as were inserted
/// and deleted; a binary file shows that it is one. Rows stand one below the other.
pub proof fn law_rows_are_shown(a: Seq<StatRow>, b: Seq<StatRow>, row: StatRow, name: nat, count: nat)
    ensures
        row.binary ==> row_line(row, name, count) == " "@ + pad_right(row.path@, name) + " | Bin\n"@,
        !row.binary ==> row_line(row, name, count) == " "@ + pad_right(row.path@, name) + " | "@ + pad_left(
            decimal((row.insertions + row.deletions) as nat),
            count,
        ) + " "@ + Seq::new(row.plus as nat, |i: int| '+') + Seq::new(row.minus as nat, |i: int| '-') + "\n"@,
        row_lines(a + b, name, count) == row_lines(a, name, count) + row_lines(b, name, count),
        row_lines(seq![row], name, count) == row_line(row, name, count),
        row_lines(Seq::empty(), name, count) == Seq::<char>::empty(),
    decreases b.len(),
{
    if !row.binary {
        assert(row_line(row, name, count) =~= " "@ + pad_right(row.path@, name) + " | "@ + pad_left(
            decimal((row.insertions + row.deletions) as nat),
            count,
        ) + " "@ + Seq::new(row.plus as nat, |i: int| '+') + Seq::new(row.minus as nat, |i: int| '-')
            + "\n"@);
    }
    assert(seq![row].drop_last() =~= Seq::<StatRow>::empty());
    assert(row_lines(seq![row].drop_last(), name, count) =~= Seq::<char>::empty());
    assert(row_lines(seq![row], name, count) =~= row_line(row, name, count));
    if b.len() == 0 {
        assert(a + b =~= a);
        assert(row_lines(a, name, count) + row_lines(b, name, count) =~= row_lines(a, name, count));
    } else {
        assert((a + b).drop_last() =~= a + b.drop_last());
        law_rows_are_shown(a, b.drop_last(), row, name, count);
        assert(row_lines(a + b, name, count) =~= row_lines(a, name, count) + row_lines(b, name, count));
    }
}

/// The last line counts the files, and the insertions and the deletions where there are any.
pub proof fn law_totals_are_shown(files: nat, insertions: nat, deletions: nat, rows: Seq<StatRow>)
    ensures
        ({
            let shown = if files == 1 {
                " "@ + decimal(files) + " file"@ + ""@ + " changed"@
            } else {
                " "@ + decimal(files) + " file"@ + "s"@ + " changed"@
            };
            let added = if insertions == 1 {
                ", "@ + decimal(insertions) + " insertion"@ + ""@ + "(+)"@
            } else {
                ", "@ + decimal(insertions) + " insertion"@ + "s"@ + "(+)"@
            };
            let removed = if deletions == 1 {
                ", "@ + decimal(deletions) + " deletion"@ + ""@ + "(-)"@
            } else {
                ", "@ + decimal(deletions) + " deletion"@ + "s"@ + "(-)"@
            };
            &&& insertions > 0 && deletions > 0 ==> stat_summary(files, insertions, deletions) == shown + added
                + removed
            &&& insertions > 0 && deletions == 0 ==> stat_summary(files, insertions, deletions) == shown
                + added
            &&& insertions == 0 && deletions > 0 ==> stat_summary(files, insertions, deletions) == shown
                + removed
            &&& insertions == 0 && deletions == 0 ==> stat_summary(files, insertions, deletions) == shown
        }),
        diffstat_text(rows) is None <==> rows.len() == 0,
        diffstat_text(rows) matches Some(text) ==> text == row_lines(
            rows,
            max_path_bytes(rows),
            max_count_width(rows),
        ) + stat_summary(rows.len(), sum_insertions(rows), sum_deletions(rows)),
{
    reveal_strlit("");
    assert(""@.len() == 0);
    let s = stat_summary(files, insertions, deletions);
    if insertions == 0 {
        assert(s =~= " "@ + decimal(files) + " file"@ + plural(files) + " changed"@ + (if deletions > 0 {
            ", "@ + decimal(deletions) + " deletion"@ + plural(deletions) + "(-)"@
        } else {
            ""@
        }));
    }
    if deletions == 0 {
        assert(s =~= " "@ + decimal(files) + " file"@ + plural(files) + " changed"@ + (if insertions > 0 {
            ", "@ + decimal(insertions) + " insertion"@ + plural(insertions) + "(+)"@
        } else {
            ""@
        }));
    }
}

} // verus!
