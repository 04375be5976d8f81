//! The error type that every operation of the library reports through, and
//! the violations that input validation collects.

use crate::text::{join, joined, opt_chars, texts_of};
use vstd::prelude::*;
use vstd::string::*;

verus! {

/// Why an operation failed.
#[derive(Debug)]
pub enum AppError {
    /// The store rejected the operation: a constraint was violated or an
    /// expression was malformed.
    Database(String),
    /// A lookup by identifier found nothing.
    NotFound(String),
    /// The input broke a declared constraint.
    Validation(String),
    /// An invariant that is not otherwise classified was broken.
    Internal(String),
}

/// The text of the message a store reports when a referenced row is missing.
pub open spec fn foreign_key_text() -> Seq<char> {
    "FOREIGN KEY constraint failed"@
}

/// The text of the message a store reports when a uniqueness rule over
/// `columns` is broken.
pub open spec fn unique_text(columns: Seq<char>) -> Seq<char> {
    "UNIQUE constraint failed: "@ + columns
}

/// The text of a lookup failure for the entity kind `kind` and identifier `id`.
pub open spec fn not_found_text(kind: Seq<char>, id: Seq<char>) -> Seq<char> {
    kind + " "@ + id + " not found"@
}

impl AppError {
    /// The text carried by the error, whatever its kind.
    pub open spec fn detail(self) -> Seq<char> {
        match self {
            AppError::Database(m) => m@,
            AppError::NotFound(m) => m@,
            AppError::Validation(m) => m@,
            AppError::Internal(m) => m@,
        }
    }

    /// The heading that introduces an error of this kind when it is displayed.
    pub open spec fn heading(self) -> Seq<char> {
        match self {
            AppError::Database(_) => "Database error: "@,
            AppError::NotFound(_) => "Not found: "@,
            AppError::Validation(_) => "Validation error: "@,
            AppError::Internal(_) => "Internal error: "@,
        }
    }

    /// The display text: the heading of the kind followed by the detail.
    pub open spec fn rendered(self) -> Seq<char> {
        self.heading() + self.detail()
    }

    /// The display text of the error.
    pub fn to_string(&self) -> (out: String)
        ensures
            out@ == self.rendered(),
    {
        match self {
            AppError::Database(m) => String::from_str("Database error: ").concat(m.as_str()),
            AppError::NotFound(m) => String::from_str("Not found: ").concat(m.as_str()),
            AppError::Validation(m) => String::from_str("Validation error: ").concat(m.as_str()),
            AppError::Internal(m) => String::from_str("Internal error: ").concat(m.as_str()),
        }
    }

    /// The lookup failure for the entity kind `kind` and identifier `id`.
    pub fn not_found(kind: &str, id: &str) -> (e: AppError)
        ensures
            e is NotFound,
            e.detail() == not_found_text(kind@, id@),
    {
        let mut m = String::from_str(kind);
        m.append(" ");
        m.append(id);
        m.append(" not found");
        AppError::NotFound(m)
    }

    /// The rejection a store reports when a referenced row does not exist.
    pub fn foreign_key() -> (e: AppError)
        ensures
            e is Database,
            e.detail() == foreign_key_text(),
    {
        AppError::Database(String::from_str("FOREIGN KEY constraint failed"))
    }

    /// The rejection a store reports when a uniqueness rule over `columns`
    /// would be broken.
    pub fn unique(columns: &str) -> (e: AppError)
        ensures
            e is Database,
            e.detail() == unique_text(columns@),
    {
        AppError::Database(String::from_str("UNIQUE constraint failed: ").concat(columns))
    }

    /// One message for what validator's collection of violations holds for
    /// the fields themselves: each violation as its field, a colon and its
    /// message, or the word `invalid` where it has none, the violations
    /// separated by a comma and a space. The fields come in the order in
    /// which the collection hands them out, which is not fixed; the
    /// violations of one field keep their order.
    pub fn from(errors: validator::ValidationErrors) -> (e: AppError)
        ensures
            e is Validation,
            is_summary(e.detail(), field_errors_of(errors)),
    {
        let list = list_field_errors(&errors);
        AppError::Validation(summary(&list))
    }
}

/// `validator::ValidationErrors`: the violations found in one value, kept by
/// field.
#[verifier::external_type_specification]
#[verifier::external_body]
pub struct ExValidationErrors(validator::ValidationErrors);

/// What the collection holds for the fields themselves: for each field with
/// violations, the code and the message of each, in the order in which they
/// were added.
pub uninterp spec fn field_errors_of(errors: validator::ValidationErrors) -> Map<
    Seq<char>,
    Seq<(Seq<char>, Option<Seq<char>>)>,
>;

/// The fields under which the collection holds the violations of a nested
/// value instead.
pub uninterp spec fn nested_fields_of(errors: validator::ValidationErrors) -> Set<Seq<char>>;

/// The violations of `field` in `held`, none where it has none.
pub open spec fn errors_under(
    held: Map<Seq<char>, Seq<(Seq<char>, Option<Seq<char>>)>>,
    field: Seq<char>,
) -> Seq<(Seq<char>, Option<Seq<char>>)> {
    if held.contains_key(field) {
        held[field]
    } else {
        Seq::empty()
    }
}

/// `held` with one more violation of `field`, after those it has.
pub open spec fn with_error(
    held: Map<Seq<char>, Seq<(Seq<char>, Option<Seq<char>>)>>,
    field: Seq<char>,
    violation: (Seq<char>, Option<Seq<char>>),
) -> Map<Seq<char>, Seq<(Seq<char>, Option<Seq<char>>)>> {
    held.insert(field, errors_under(held, field).push(violation))
}

/// Whether `held` holds no violation of any field.
pub open spec fn is_clear(held: Map<Seq<char>, Seq<(Seq<char>, Option<Seq<char>>)>>) -> bool {
    forall|field: Seq<char>| !held.contains_key(field)
}

/// `ValidationErrors::new` of validator: a collection that holds nothing.
#[verifier::external_body]
pub(crate) fn no_errors() -> (errors: validator::ValidationErrors)
    ensures
        is_clear(field_errors_of(errors)),
        nested_fields_of(errors) == Set::<Seq<char>>::empty(),
{
    validator::ValidationErrors::new()
}

/// `ValidationErrors::add` of validator, handed the violation as the
/// error with its code and its message and without parameters: the error
/// comes after the errors that the field has; nothing else changes.
/// validator panics where the field holds the violations of a nested value.
#[verifier::external_body]
pub(crate) fn add_error(
    errors: &mut validator::ValidationErrors,
    field: &'static str,
    violation: Violation,
)
    requires
        !nested_fields_of(*old(errors)).contains(field@),
    ensures
        field_errors_of(*final(errors)) == with_error(
            field_errors_of(*old(errors)),
            field@,
            violation@,
        ),
        nested_fields_of(*final(errors)) == nested_fields_of(*old(errors)),
{
    let error = validator::ValidationError {
        code: std::borrow::Cow::Owned(violation.code),
        message: violation.message.map(std::borrow::Cow::Owned),
        params: std::collections::HashMap::new(),
    };
    errors.add(field, error);
}

/// `ValidationErrors::is_empty` of validator: whether the collection holds
/// nothing under any field.
#[verifier::external_body]
pub(crate) fn holds_nothing(errors: &validator::ValidationErrors) -> (r: bool)
    ensures
        r == (is_clear(field_errors_of(*errors)) && nested_fields_of(*errors) == Set::<
            Seq<char>,
        >::empty()),
{
    errors.is_empty()
}

/// One violation as validator records it: the code of the rule and, where
/// the rule has one, its message for the user.
#[derive(Debug)]
pub struct Violation {
    pub code: String,
    pub message: Option<String>,
}

impl View for Violation {
    type V = (Seq<char>, Option<Seq<char>>);

    open spec fn view(&self) -> (Seq<char>, Option<Seq<char>>) {
        (self.code@, opt_chars(self.message))
    }
}

/// The violations of one field.
#[derive(Debug)]
pub struct FieldErrors {
    pub field: String,
    pub errors: Vec<Violation>,
}

impl FieldErrors {
    /// The code and the message of each violation, in order.
    pub open spec fn details(self) -> Seq<(Seq<char>, Option<Seq<char>>)> {
        self.errors@.map_values(|v: Violation| v@)
    }
}

/// Whether `list` hands out what `held` holds: every field once, in some
/// order, each with its violations in their order.
pub open spec fn hands_out(
    list: Seq<FieldErrors>,
    held: Map<Seq<char>, Seq<(Seq<char>, Option<Seq<char>>)>>,
) -> bool {
    &&& forall|i: int, j: int|
        0 <= i < list.len() && 0 <= j < list.len() && i != j ==> (#[trigger] list[i]).field@
            != (#[trigger] list[j]).field@
    &&& forall|i: int|
        0 <= i < list.len() ==> held.contains_key((#[trigger] list[i]).field@)
            && held[list[i].field@] == list[i].details()
    &&& forall|field: Seq<char>|
        held.contains_key(field) ==> exists|i: int|
            0 <= i < list.len() && (#[trigger] list[i]).field@ == field
}

/// `ValidationErrors::field_errors` of validator, handed out as a list: the
/// fields with violations of their own, each once, with the code and the
/// message of each violation in the order in which they were added. The
/// order of the fields is that in which a hash map is walked, so nothing is
/// said of it.
#[verifier::external_body]
pub(crate) fn list_field_errors(errors: &validator::ValidationErrors) -> (out: Vec<FieldErrors>)
    ensures
        hands_out(out@, field_errors_of(*errors)),
{
    let read = |e: &validator::ValidationError| Violation {
        code: e.code.to_string(),
        message: e.message.as_ref().map(|m| m.to_string()),
    };
    errors
        .field_errors()
        .into_iter()
        .map(|(field, found)| FieldErrors {
            field: field.into_owned(),
            errors: found.iter().map(read).collect(),
        })
        .collect()
}

/// The line that reports a violation of `field`: the field, a colon, and the
/// message of the rule, or the word `invalid` where the rule has none.
pub open spec fn line(field: Seq<char>, violation: (Seq<char>, Option<Seq<char>>)) -> Seq<char> {
    match violation.1 {
        Some(message) => field + ": "@ + message,
        None => field + ": invalid"@,
    }
}

/// The lines of the violations of one field, in order.
pub open spec fn field_lines(
    field: Seq<char>,
    details: Seq<(Seq<char>, Option<Seq<char>>)>,
) -> Seq<Seq<char>>
    decreases details.len(),
{
    if details.len() == 0 {
        Seq::empty()
    } else {
        field_lines(field, details.drop_last()).push(line(field, details.last()))
    }
}

/// The lines of all violations of a list, field after field.
pub open spec fn all_lines(list: Seq<FieldErrors>) -> Seq<Seq<char>>
    decreases list.len(),
{
    if list.len() == 0 {
        Seq::empty()
    } else {
        all_lines(list.drop_last()) + field_lines(list.last().field@, list.last().details())
    }
}

/// Whether `text` is one message for what `held` holds: the lines of its
/// violations, the fields in some order, joined by a comma and a space.
pub open spec fn is_summary(
    text: Seq<char>,
    held: Map<Seq<char>, Seq<(Seq<char>, Option<Seq<char>>)>>,
) -> bool {
    exists|list: Seq<FieldErrors>|
        #![trigger all_lines(list)]
        hands_out(list, held) && text == joined(all_lines(list), ", "@)
}

/// Writes one violation of `field` as a line.
fn to_line(field: &String, violation: &Violation) -> (out: String)
    ensures
        out@ == line(field@, violation@),
{
    let mut out = field.clone();
    match &violation.message {
        Some(m) => {
            out.append(": ");
            out.append(m.as_str());
        },
        None => {
            out.append(": invalid");
        },
    }
    out
}

/// One message for a list of violations: their lines, field after field,
/// joined by a comma and a space.
pub fn summary(list: &Vec<FieldErrors>) -> (out: String)
    ensures
        out@ == joined(all_lines(list@), ", "@),
{
    let mut lines: Vec<String> = Vec::new();
    let mut i: usize = 0;
    proof {
        assert(list@.take(0) =~= Seq::<FieldErrors>::empty());
        assert(texts_of(lines@) =~= all_lines(list@.take(0)));
    }
    while i < list.len()
        invariant
            i <= list.len(),
            texts_of(lines@) == all_lines(list@.take(i as int)),
        decreases list.len() - i,
    {
        let entry = &list[i];
        let ghost before = texts_of(lines@);
        let ghost details = entry.details();
        let mut j: usize = 0;
        proof {
            assert(details.take(0) =~= Seq::<(Seq<char>, Option<Seq<char>>)>::empty());
            assert(before + field_lines(entry.field@, details.take(0)) =~= before);
        }
        while j < entry.errors.len()
            invariant
                j <= entry.errors.len(),
                details == entry.details(),
                details.len() == entry.errors.len(),
                texts_of(lines@) == before + field_lines(entry.field@, details.take(j as int)),
            decreases entry.errors.len() - j,
        {
            let ghost held = lines@;
            let text = to_line(&entry.field, &entry.errors[j]);
            lines.push(text);
            proof {
                let next = details.take(j + 1);
                assert(next.drop_last() == details.take(j as int));
                assert(next.last() == entry.errors@[j as int]@);
                assert(texts_of(lines@) =~= texts_of(held).push(text@));
                assert(before + field_lines(entry.field@, details.take(j as int)).push(
                    line(entry.field@, next.last()),
                ) =~= (before + field_lines(entry.field@, details.take(j as int))).push(
                    line(entry.field@, next.last()),
                ));
            }
            j += 1;
        }
        proof {
            assert(details.take(details.len() as int) == details);
            let next = list@.take(i + 1);
            assert(next.drop_last() == list@.take(i as int));
            assert(next.last() == list@[i as int]);
        }
        i += 1;
    }
    proof {
        assert(list@.take(list@.len() as int) == list@);
    }
    join(&lines, ", ")
}

} // verus!
