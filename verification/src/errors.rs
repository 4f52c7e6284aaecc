use vstd::prelude::*;
use validator::ValidationErrors;

verus! {

/// The message that heads every answer to a request that failed validation.
pub const VALIDATION_ERROR_MESSAGE: &'static str = "Encountered an error while parsing the request";

#[verifier::external_type_specification]
#[verifier::external_body]
pub struct ExValidationErrors(ValidationErrors);

/// The fields named in a `validator::ValidationErrors`: the keys of the map
/// that it holds.
pub uninterp spec fn failed_fields(errors: ValidationErrors) -> Set<Seq<char>>;

/// Wraps `validator::ValidationErrors::errors`, walking the keys of the map it
/// returns: each failed field comes out once, in the order in which the
/// `HashMap` is walked, which the source leaves open.
#[verifier::external_body]
fn failed_field_names(errors: &ValidationErrors) -> (names: Vec<String>)
    ensures
        names@.map_values(|s: String| s@).no_duplicates(),
        names@.map_values(|s: String| s@).to_set() == failed_fields(*errors),
{
    errors.errors().iter().map(|(field, _)| field.to_string()).collect()
}

/// The answer to a request that failed validation: a message and the fields
/// that failed.
pub struct ValidationErrorResponse<'a> {
    pub message: &'a str,
    pub errors: Vec<String>,
}

/// `lines` joined with a line break between each two.
pub open spec fn join_lines(lines: Seq<Seq<char>>) -> Seq<char>
    decreases lines.len(),
{
    if lines.len() == 0 {
        Seq::empty()
    } else if lines.len() == 1 {
        lines[0]
    } else {
        join_lines(lines.drop_last()) + "\n"@ + lines.last()
    }
}

/// Where line `i` of `lines` starts once they are joined with line breaks:
/// after each earlier line and its line break.
pub open spec fn line_start(lines: Seq<Seq<char>>, i: int) -> int
    decreases i,
{
    if i <= 0 {
        0
    } else {
        line_start(lines, i - 1) + lines[i - 1].len() + 1
    }
}

proof fn lemma_line_start_drop_last(lines: Seq<Seq<char>>, i: int)
    requires
        0 <= i < lines.len(),
    ensures
        line_start(lines.drop_last(), i) == line_start(lines, i),
    decreases i,
{
    if i > 0 {
        lemma_line_start_drop_last(lines, i - 1);
        assert(lines.drop_last()[i - 1] == lines[i - 1]);
    }
}

proof fn lemma_line_start_mono(lines: Seq<Seq<char>>, i: int, k: int)
    requires
        0 <= i <= k,
    ensures
        line_start(lines, i) + (k - i) <= line_start(lines, k),
    decreases k - i,
{
    if i < k {
        lemma_line_start_mono(lines, i, k - 1);
    }
}

proof fn lemma_join_lines_len(lines: Seq<Seq<char>>)
    requires
        lines.len() > 0,
    ensures
        join_lines(lines).len() == line_start(lines, lines.len() - 1) + lines.last().len(),
    decreases lines.len(),
{
    reveal_strlit("\n");
    let n = lines.len() as int;
    if n > 1 {
        let init = lines.drop_last();
        lemma_join_lines_len(init);
        lemma_line_start_drop_last(lines, n - 2);
        assert(init.last() == lines[n - 2]);
    }
}

proof fn lemma_join_lines_line(lines: Seq<Seq<char>>, i: int)
    requires
        0 <= i < lines.len(),
    ensures
        join_lines(lines).subrange(line_start(lines, i), line_start(lines, i) + lines[i].len())
            == lines[i],
        i > 0 ==> join_lines(lines)[line_start(lines, i) - 1] == '\n',
    decreases lines.len(),
{
    reveal_strlit("\n");
    let n = lines.len() as int;
    let j = join_lines(lines);
    if n == 1 {
        assert(j.subrange(0, lines[0].len() as int) =~= lines[0]);
    } else {
        let init = lines.drop_last();
        let j0 = join_lines(init);
        assert(j == j0 + "\n"@ + lines.last());
        lemma_join_lines_len(init);
        lemma_line_start_drop_last(lines, n - 2);
        assert(init.last() == lines[n - 2]);
        let a = line_start(lines, i);
        if i == n - 1 {
            assert(a == j0.len() + 1);
            assert(j.subrange(a, a + lines[i].len()) =~= lines.last());
            assert(j[a - 1] == '\n');
        } else {
            lemma_join_lines_line(init, i);
            lemma_line_start_drop_last(lines, i);
            assert(init[i] == lines[i]);
            lemma_line_start_mono(init, i, n - 2);
            lemma_line_start_mono(lines, 0, i);
            if i < n - 2 {
                lemma_line_start_mono(init, i + 1, n - 2);
                lemma_line_start_drop_last(lines, i + 1);
            }
            assert(a + lines[i].len() <= j0.len());
            assert(j.subrange(a, a + lines[i].len()) =~= j0.subrange(a, a + lines[i].len()));
            if i > 0 {
                assert(j[a - 1] == j0[a - 1]);
            }
        }
    }
}

/// Joining lines with line breaks keeps every line whole and in order: line
/// `i` stands at `line_start(lines, i)`, each line after the first is
/// preceded by a line break, and the text ends with the last line.
pub proof fn lemma_join_lines_layout(lines: Seq<Seq<char>>)
    ensures
        lines.len() == 0 ==> join_lines(lines).len() == 0,
        lines.len() > 0 ==> join_lines(lines).len() == line_start(lines, lines.len() - 1)
            + lines.last().len(),
        forall|i: int|
            0 <= i < lines.len() ==> join_lines(lines).subrange(
                line_start(lines, i),
                line_start(lines, i) + lines[i].len(),
            ) == #[trigger] lines[i],
        forall|i: int|
            0 < i < lines.len() ==> join_lines(lines)[line_start(lines, i) - 1] == '\n',
{
    if lines.len() > 0 {
        lemma_join_lines_len(lines);
    }
    assert forall|i: int| 0 <= i < lines.len() implies join_lines(lines).subrange(
        line_start(lines, i),
        line_start(lines, i) + lines[i].len(),
    ) == #[trigger] lines[i] by {
        lemma_join_lines_line(lines, i);
    }
    assert forall|i: int| 0 < i < lines.len() implies join_lines(lines)[line_start(lines, i) - 1]
        == '\n' by {
        lemma_join_lines_line(lines, i);
    }
}

impl<'a> ValidationErrorResponse<'a> {
    /// The texts of the failed fields, in order.
    pub open spec fn error_texts(&self) -> Seq<Seq<char>> {
        self.errors@.map_values(|s: String| s@)
    }

    /// The text of the answer: `{message}:` and then one failed field per line.
    pub open spec fn text(&self) -> Seq<char> {
        self.message@ + ":\n"@ + join_lines(self.error_texts())
    }

    /// The answer for the given failed fields, under the standard message.
    pub fn for_fields(fields: Vec<String>) -> (res: ValidationErrorResponse<'static>)
        ensures
            res.message@ == VALIDATION_ERROR_MESSAGE@,
            res.errors@ == fields@,
    {
        ValidationErrorResponse { message: VALIDATION_ERROR_MESSAGE, errors: fields }
    }

    /// The HTTP status of the answer: 400, Bad Request.
    pub fn status_code(&self) -> (status: u16)
        ensures
            status == 400,
    {
        400
    }

    /// Renders the answer as text.
    pub fn to_string(&self) -> (text: String)
        ensures
            text@ == self.text(),
    {
        let mut out = String::from_str(self.message);
        out.append(":\n");
        let n = self.errors.len();
        let ghost texts = self.error_texts();
        let mut i: usize = 0;
        while i < n
            invariant
                n == self.errors@.len(),
                texts == self.error_texts(),
                texts.len() == n,
                i <= n,
                out@ == self.message@ + ":\n"@ + join_lines(texts.take(i as int)),
            decreases n - i,
        {
            proof {
                assert(texts.take(i + 1).drop_last() =~= texts.take(i as int));
                assert(texts.take(i + 1).last() == self.errors@[i as int]@);
            }
            if i > 0 {
                out.append("\n");
            } else {
                assert(texts.take(1) =~= seq![texts[0]]);
            }
            out.append(self.errors[i].as_str());
            i = i + 1;
        }
        assert(texts.take(n as int) =~= texts);
        out
    }
}

/// The text of an answer is its message, `:`, a line break, and then every
/// failed field in order, each whole on its own line: field `i` starts at
/// `line_start` of `i` after the header, each but the first follows a line
/// break, and the text ends with the last field (or with the header when no
/// field failed).
pub proof fn lemma_text_lists_every_error<'a>(r: ValidationErrorResponse<'a>)
    ensures
        ({
            let t = r.text();
            let h = r.message@.len() + 2;
            let e = r.error_texts();
            &&& t.subrange(0, r.message@.len() as int) == r.message@
            &&& t[r.message@.len() as int] == ':'
            &&& t[r.message@.len() + 1int] == '\n'
            &&& t.len() == h + (if e.len() == 0 {
                0
            } else {
                line_start(e, e.len() - 1) + e.last().len()
            })
            &&& forall|i: int|
                0 <= i < e.len() ==> t.subrange(
                    h + line_start(e, i),
                    h + line_start(e, i) + e[i].len(),
                ) == #[trigger] e[i]
            &&& forall|i: int| 0 < i < e.len() ==> t[h + line_start(e, i) - 1] == '\n'
        }),
{
    reveal_strlit(":\n");
    let e = r.error_texts();
    let j = join_lines(e);
    let t = r.text();
    let m = r.message@.len() as int;
    let h = m + 2;
    assert(t == r.message@ + ":\n"@ + j);
    assert(t.subrange(0, m) =~= r.message@);
    if e.len() > 0 {
        lemma_join_lines_len(e);
    }
    assert forall|i: int| 0 <= i < e.len() implies t.subrange(
        h + line_start(e, i),
        h + line_start(e, i) + e[i].len(),
    ) == #[trigger] e[i] by {
        lemma_join_lines_line(e, i);
        lemma_line_start_mono(e, 0, i);
        if i < e.len() - 1 {
            lemma_line_start_mono(e, i + 1, e.len() - 1);
        }
        let a = line_start(e, i);
        assert(t.subrange(h + a, h + a + e[i].len()) =~= j.subrange(a, a + e[i].len()));
    }
    assert forall|i: int| 0 < i < e.len() implies t[h + line_start(e, i) - 1] == '\n' by {
        lemma_join_lines_line(e, i);
        lemma_line_start_mono(e, 0, i);
        lemma_line_start_mono(e, i, e.len() - 1);
        assert(t[h + line_start(e, i) - 1] == j[line_start(e, i) - 1]);
    }
}

/// The answer to a request whose fields failed validation: the standard
/// message and each failed field once, in the order in which the errors are
/// walked.
pub fn error_handler(errors: &ValidationErrors) -> (res: ValidationErrorResponse<'static>)
    ensures
        res.message@ == VALIDATION_ERROR_MESSAGE@,
        res.error_texts().no_duplicates(),
        res.error_texts().to_set() == failed_fields(*errors),
{
    let names = failed_field_names(errors);
    ValidationErrorResponse::for_fields(names)
}

} // verus!
