use vstd::prelude::*;

use crate::error::TaskError;
use crate::text::same_text;

verus! {

/// The argument of an update command: the free text of the fields to change.
#[derive(Debug)]
pub enum TaskCommandUpdateArgs {
    Fields(String),
}

/// A sparse patch of a task: each field that is set replaces the task's
/// value, each one left unset keeps it.
#[derive(Debug, Default)]
pub struct UpdateFields {
    pub name: Option<String>,
    pub description: Option<String>,
    pub due_date: Option<String>,
    pub completed: Option<String>,
}

/// What an `UpdateFields` holds, as character sequences.
pub struct FieldPatch {
    pub name: Option<Seq<char>>,
    pub description: Option<Seq<char>>,
    pub due_date: Option<Seq<char>>,
    pub completed: Option<Seq<char>>,
}

pub open spec fn text_of(o: Option<String>) -> Option<Seq<char>> {
    match o {
        Some(s) => Some(s@),
        None => None,
    }
}

impl View for UpdateFields {
    type V = FieldPatch;

    open spec fn view(&self) -> FieldPatch {
        FieldPatch {
            name: text_of(self.name),
            description: text_of(self.description),
            due_date: text_of(self.due_date),
            completed: text_of(self.completed),
        }
    }
}

/// The patch that sets nothing.
pub open spec fn empty_patch() -> FieldPatch {
    FieldPatch { name: None, description: None, due_date: None, completed: None }
}

/// The pattern that a due date in an update must match somewhere:
/// `YYYY-MM-DDTHH:MM:SS±HH:MM`.
pub const DUE_DATE_PATTERN: &'static str = "\\d{4}-\\d{2}-\\d{2}T\\d{2}:\\d{2}:\\d{2}[+-]\\d{2}:\\d{2}";

/// What the regex crate decides for a pattern and a text: `None` when the
/// pattern does not compile, else whether the text holds a match anywhere.
pub uninterp spec fn regex_outcome(pattern: Seq<char>, text: Seq<char>) -> Option<bool>;

/// Relies on regex's `Regex::new`, which compiles the pattern or fails, and on
/// `Regex::is_match` of the compiled pattern: the outcome depends on the two
/// texts alone.
#[verifier::external_body]
fn regex_is_match(pattern: &str, text: &str) -> (r: Option<bool>)
    ensures
        r == regex_outcome(pattern@, text@),
{
    match regex::Regex::new(pattern) {
        Ok(re) => Some(re.is_match(text)),
        Err(_) => None,
    }
}

/// A due date in an update has the shape `YYYY-MM-DDTHH:MM:SS±HH:MM`.
pub open spec fn due_date_format_ok(value: Seq<char>) -> bool {
    regex_outcome(DUE_DATE_PATTERN@, value) == Some(true)
}

/// A completion flag in an update is exactly `true` or `false`.
pub open spec fn completed_format_ok(value: Seq<char>) -> bool {
    value == "true"@ || value == "false"@
}

pub open spec fn not_key_value_message() -> Seq<char> {
    "Invalid input. Not a key/value pair."@
}

pub open spec fn bad_due_date_message() -> Seq<char> {
    "Invalid datetime format for due date"@
}

pub open spec fn bad_completed_message() -> Seq<char> {
    "Invalid boolean string for completed"@
}

pub open spec fn unknown_key_message(key: Seq<char>) -> Seq<char> {
    "Unknown field key: "@ + key
}

/// The pieces of an update text between the `", "` separators, in order.
pub open spec fn split_pairs(s: Seq<char>) -> Seq<Seq<char>>
    decreases s.len(),
{
    if s.len() == 0 {
        seq![Seq::<char>::empty()]
    } else if s.len() >= 2 && s[0] == ',' && s[1] == ' ' {
        seq![Seq::<char>::empty()] + split_pairs(s.subrange(2, s.len() as int))
    } else {
        let rest = split_pairs(s.drop_first());
        rest.update(0, seq![s[0]] + rest[0])
    }
}

/// `k` is the place of the first colon of `pair`.
pub open spec fn first_colon(pair: Seq<char>, k: int) -> bool {
    &&& 0 <= k < pair.len()
    &&& pair[k] == ':'
    &&& forall|j: int| 0 <= j < k ==> pair[j] != ':'
}

/// The patch after one `key:value` pair; `due_date_ok` says whether the
/// value has the shape of a due date. An error holds its message.
pub open spec fn apply_field(
    p: FieldPatch,
    key: Seq<char>,
    value: Seq<char>,
    due_date_ok: bool,
) -> Result<FieldPatch, Seq<char>> {
    if key == "name"@ {
        Ok(
            FieldPatch {
                name: Some(value),
                description: p.description,
                due_date: p.due_date,
                completed: p.completed,
            },
        )
    } else if key == "description"@ {
        Ok(
            FieldPatch {
                name: p.name,
                description: Some(value),
                due_date: p.due_date,
                completed: p.completed,
            },
        )
    } else if key == "due_date"@ {
        if due_date_ok {
            Ok(
                FieldPatch {
                    name: p.name,
                    description: p.description,
                    due_date: Some(value),
                    completed: p.completed,
                },
            )
        } else {
            Err(bad_due_date_message())
        }
    } else if key == "completed"@ {
        if completed_format_ok(value) {
            Ok(
                FieldPatch {
                    name: p.name,
                    description: p.description,
                    due_date: p.due_date,
                    completed: Some(value),
                },
            )
        } else {
            Err(bad_completed_message())
        }
    } else {
        Err(unknown_key_message(key))
    }
}

/// The patch after one piece of an update text: the piece splits at its
/// first colon into key and value.
pub open spec fn apply_pair(p: FieldPatch, pair: Seq<char>) -> Result<FieldPatch, Seq<char>> {
    if exists|k: int| first_colon(pair, k) {
        let k = choose|k: int| first_colon(pair, k);
        let value = pair.subrange(k + 1, pair.len() as int);
        apply_field(p, pair.subrange(0, k), value, due_date_format_ok(value))
    } else {
        Err(not_key_value_message())
    }
}

/// The patch after all pieces, in order; the first error ends the work.
pub open spec fn apply_pairs(p: FieldPatch, pairs: Seq<Seq<char>>) -> Result<
    FieldPatch,
    Seq<char>,
>
    decreases pairs.len(),
{
    if pairs.len() == 0 {
        Ok(p)
    } else {
        match apply_pair(p, pairs[0]) {
            Ok(q) => apply_pairs(q, pairs.drop_first()),
            Err(m) => Err(m),
        }
    }
}

/// The patch that an update text describes, or the message of its first error.
pub open spec fn parse_update(s: Seq<char>) -> Result<FieldPatch, Seq<char>> {
    apply_pairs(empty_patch(), split_pairs(s))
}

/// `r` is the outcome `expected`: the patch, or `InvalidInput` with the message.
pub open spec fn outcome_is(r: Result<UpdateFields, TaskError>, expected: Result<FieldPatch, Seq<char>>) -> bool {
    match expected {
        Ok(p) => r matches Ok(f) && f@ == p,
        Err(m) => r matches Err(TaskError::InvalidInput(e)) && e@ == m,
    }
}

/// `cur` joined to the front of the first of `pieces`.
spec fn join_front(cur: Seq<char>, pieces: Seq<Seq<char>>) -> Seq<Seq<char>> {
    pieces.update(0, cur + pieces[0])
}

proof fn lemma_split_pairs_nonempty(s: Seq<char>)
    ensures
        split_pairs(s).len() >= 1,
    decreases s.len(),
{
    if s.len() == 0 {
    } else if s.len() >= 2 && s[0] == ',' && s[1] == ' ' {
        lemma_split_pairs_nonempty(s.subrange(2, s.len() as int));
    } else {
        lemma_split_pairs_nonempty(s.drop_first());
    }
}

impl UpdateFields {
    /// The patch that changes nothing.
    pub fn default() -> (r: Self)
        ensures
            r@ == empty_patch(),
    {
        Self { name: None, description: None, due_date: None, completed: None }
    }
}

/// The value has the shape `YYYY-MM-DDTHH:MM:SS±HH:MM` somewhere in it.
fn valid_due_date_format(value: &str) -> (r: bool)
    ensures
        r == due_date_format_ok(value@),
{
    match regex_is_match(DUE_DATE_PATTERN, value) {
        Some(found) => found,
        None => false,
    }
}

/// The value is exactly `true` or `false`.
pub fn valid_completed_format(value: &str) -> (r: bool)
    ensures
        r == completed_format_ok(value@),
{
    same_text(value, "true") || same_text(value, "false")
}

/// Sets the field `key` of the patch to `value`; `due_date_ok` says whether
/// the value has the shape of a due date, and counts for that key alone.
pub fn set_field(fields: UpdateFields, key: &str, value: &str, due_date_ok: bool) -> (r: Result<
    UpdateFields,
    TaskError,
>)
    ensures
        outcome_is(r, apply_field(fields@, key@, value@, due_date_ok)),
{
    let mut fields = fields;
    if same_text(key, "name") {
        fields.name = Some(value.to_owned());
        Ok(fields)
    } else if same_text(key, "description") {
        fields.description = Some(value.to_owned());
        Ok(fields)
    } else if same_text(key, "due_date") {
        if due_date_ok {
            fields.due_date = Some(value.to_owned());
            Ok(fields)
        } else {
            Err(TaskError::InvalidInput(String::from_str("Invalid datetime format for due date")))
        }
    } else if same_text(key, "completed") {
        if valid_completed_format(value) {
            fields.completed = Some(value.to_owned());
            Ok(fields)
        } else {
            Err(TaskError::InvalidInput(String::from_str("Invalid boolean string for completed")))
        }
    } else {
        Err(TaskError::InvalidInput(String::from_str("Unknown field key: ").concat(key)))
    }
}

/// Applies one `key:value` piece of an update text to the patch.
fn apply_piece(fields: UpdateFields, pair: &str) -> (r: Result<UpdateFields, TaskError>)
    ensures
        outcome_is(r, apply_pair(fields@, pair@)),
{
    let n = pair.unicode_len();
    let mut k: usize = 0;
    while k < n && pair.get_char(k) != ':'
        invariant
            n == pair@.len(),
            k <= n,
            forall|j: int| 0 <= j < k ==> pair@[j] != ':',
        decreases n - k,
    {
        k += 1;
    }
    if k == n {
        return Err(TaskError::InvalidInput(String::from_str("Invalid input. Not a key/value pair.")));
    }
    proof {
        assert(first_colon(pair@, k as int));
        let c = choose|c: int| first_colon(pair@, c);
        assert(c == k) by {
            if c < k {
                assert(pair@[c] != ':');
            } else if c > k {
                assert(pair@[k as int] != ':');
            }
        }
    }
    let key = pair.substring_char(0, k);
    let value = pair.substring_char(k + 1, n);
    let due_date_ok = if same_text(key, "due_date") {
        valid_due_date_format(value)
    } else {
        false
    };
    set_field(fields, key, value, due_date_ok)
}

/// Reads an update text of `key:value` pairs separated by `", "` into a
/// patch. The keys are `name`, `description`, `due_date` and `completed`; a
/// later pair overrides an earlier one with the same key. The first piece
/// without a colon, with an unknown key, a due date not shaped
/// `YYYY-MM-DDTHH:MM:SS±HH:MM` or a completion flag other than `true` or
/// `false` fails the whole text with `InvalidInput`.
pub fn parse_update_fields(update_args: &str) -> (r: Result<UpdateFields, TaskError>)
    ensures
        outcome_is(r, parse_update(update_args@)),
{
    let ghost s = update_args@;
    let n = update_args.unicode_len();
    let mut fields = UpdateFields::default();
    let mut start: usize = 0;
    let mut i: usize = 0;
    proof {
        assert(s.subrange(0, n as int) =~= s);
        lemma_split_pairs_nonempty(s);
        assert(join_front(Seq::empty(), split_pairs(s)) =~= split_pairs(s));
    }
    while i < n
        invariant
            n == s.len(),
            s == update_args@,
            start <= i <= n,
            split_pairs(s.subrange(i as int, n as int)).len() >= 1,
            parse_update(s) == apply_pairs(
                fields@,
                join_front(s.subrange(start as int, i as int), split_pairs(s.subrange(i as int, n as int))),
            ),
        decreases n - i,
    {
        let ghost rest = s.subrange(i as int, n as int);
        let ghost cur = s.subrange(start as int, i as int);
        let ghost before = fields@;
        if i + 1 < n && update_args.get_char(i) == ',' && update_args.get_char(i + 1) == ' ' {
            let piece = update_args.substring_char(start, i);
            proof {
                let tail = s.subrange(i + 2, n as int);
                assert(rest.len() >= 2 && rest[0] == ',' && rest[1] == ' ');
                assert(rest.subrange(2, rest.len() as int) =~= tail);
                lemma_split_pairs_nonempty(tail);
                assert(split_pairs(rest) == seq![Seq::<char>::empty()] + split_pairs(tail));
                assert(cur + Seq::<char>::empty() =~= cur);
                let pieces = join_front(cur, split_pairs(rest));
                assert(pieces =~= seq![cur] + split_pairs(tail));
                assert(pieces[0] == cur);
                assert(pieces.drop_first() =~= split_pairs(tail));
                assert(join_front(s.subrange(i + 2, i + 2), split_pairs(tail)) =~= split_pairs(tail));
            }
            match apply_piece(fields, piece) {
                Ok(next) => {
                    fields = next;
                },
                Err(e) => {
                    return Err(e);
                },
            }
            start = i + 2;
            i = i + 2;
        } else {
            proof {
                let tail = s.subrange(i + 1, n as int);
                assert(rest.len() > 0 && rest[0] == s[i as int]);
                if rest.len() >= 2 {
                    assert(rest[1] == s[i + 1]);
                }
                assert(rest.drop_first() =~= tail);
                lemma_split_pairs_nonempty(tail);
                let x = split_pairs(tail);
                assert(split_pairs(rest) == x.update(0, seq![s[i as int]] + x[0]));
                let next = s.subrange(start as int, i + 1);
                assert(next =~= cur + seq![s[i as int]]);
                assert(cur + (seq![s[i as int]] + x[0]) =~= next + x[0]);
                assert(join_front(cur, split_pairs(rest)) =~= join_front(next, x));
            }
            i = i + 1;
        }
    }
    let piece = update_args.substring_char(start, n);
    let ghost before = fields@;
    let ghost cur = s.subrange(start as int, n as int);
    proof {
        assert(s.subrange(n as int, n as int) =~= Seq::<char>::empty());
        let pieces = join_front(cur, split_pairs(Seq::<char>::empty()));
        assert(cur + Seq::<char>::empty() =~= cur);
        assert(pieces =~= seq![cur]);
        assert(pieces.drop_first() =~= Seq::<Seq<char>>::empty());
    }
    let r = apply_piece(fields, piece);
    proof {
        if let Ok(q) = apply_pair(before, cur) {
            assert(apply_pairs(q, Seq::<Seq<char>>::empty()) == Ok::<FieldPatch, Seq<char>>(q));
        }
    }
    r
}

} // verus!
