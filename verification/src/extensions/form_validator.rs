use vstd::prelude::*;
use vstd::string::StringExecFns;

use crate::text::string_push;

verus! {

/// An error of the server, by what caused it, holding the text that the
/// underlying error displays.
pub enum ServerError {
    ValidationError(String),
    AxumFormRejection(String),
    SqlxErrors(String),
    AskamaError(String),
    IO(String),
    Format(String),
    SerdeJson(String),
    Session(String),
    TokioJoin(String),
    UTF8(String),
    FutureSpawn(String),
}

/// The HTTP status and the body text that answer an error.
pub struct ErrorResponse {
    pub status: u16,
    pub body: String,
}

/// The text with each line break replaced by ", ".
pub open spec fn replace_newlines(s: Seq<char>) -> Seq<char>
    decreases s.len(),
{
    if s.len() == 0 {
        Seq::empty()
    } else {
        replace_newlines(s.drop_last()) + if s.last() == '\n' {
            ", "@
        } else {
            seq![s.last()]
        }
    }
}

impl ServerError {
    /// The text that the underlying error displays.
    pub open spec fn text(self) -> Seq<char> {
        match self {
            ServerError::ValidationError(t) => t@,
            ServerError::AxumFormRejection(t) => t@,
            ServerError::SqlxErrors(t) => t@,
            ServerError::AskamaError(t) => t@,
            ServerError::IO(t) => t@,
            ServerError::Format(t) => t@,
            ServerError::SerdeJson(t) => t@,
            ServerError::Session(t) => t@,
            ServerError::TokioJoin(t) => t@,
            ServerError::UTF8(t) => t@,
            ServerError::FutureSpawn(t) => t@,
        }
    }

    /// Bad input from the client: a failed validation or a rejected form.
    pub open spec fn is_client_error(self) -> bool {
        self is ValidationError || self is AxumFormRejection
    }

    /// The status that answers the error: 400 for bad input, 500 otherwise.
    pub open spec fn response_status(self) -> u16 {
        if self.is_client_error() {
            400
        } else {
            500
        }
    }

    /// The body that answers the error: a validation error is framed as
    /// "Input validation error: [...]" on one line; any other error shows
    /// its own text.
    pub open spec fn response_body(self) -> Seq<char> {
        if self is ValidationError {
            replace_newlines("Input validation error: ["@ + self.text() + "]"@)
        } else {
            self.text()
        }
    }

    pub fn into_response(self) -> (r: ErrorResponse)
        ensures
            r.status == self.response_status(),
            r.body@ == self.response_body(),
    {
        match self {
            ServerError::ValidationError(t) => {
                let mut framed = String::from_str("Input validation error: [");
                framed.append(t.as_str());
                framed.append("]");
                ErrorResponse { status: 400, body: one_line(&framed) }
            },
            ServerError::AxumFormRejection(t) => ErrorResponse { status: 400, body: t },
            ServerError::SqlxErrors(t) => ErrorResponse { status: 500, body: t },
            ServerError::AskamaError(t) => ErrorResponse { status: 500, body: t },
            ServerError::IO(t) => ErrorResponse { status: 500, body: t },
            ServerError::Format(t) => ErrorResponse { status: 500, body: t },
            ServerError::SerdeJson(t) => ErrorResponse { status: 500, body: t },
            ServerError::Session(t) => ErrorResponse { status: 500, body: t },
            ServerError::TokioJoin(t) => ErrorResponse { status: 500, body: t },
            ServerError::UTF8(t) => ErrorResponse { status: 500, body: t },
            ServerError::FutureSpawn(t) => ErrorResponse { status: 500, body: t },
        }
    }
}

/// The text with each line break replaced by ", ".
fn one_line(s: &String) -> (r: String)
    ensures
        r@ == replace_newlines(s@),
{
    let mut r = String::new();
    let ghost chars = s@;
    for c in it: s.chars()
        invariant
            it.seq() == chars,
            r@ == replace_newlines(chars.take(it.index())),
    {
        proof {
            assert(chars.take(it.index() + 1).drop_last() =~= chars.take(it.index()));
        }
        if c == '\n' {
            string_push(&mut r, ',');
            string_push(&mut r, ' ');
            proof {
                reveal_strlit(", ");
                assert(r@ =~= replace_newlines(chars.take(it.index() + 1)));
            }
        } else {
            string_push(&mut r, c);
            assert(r@ =~= replace_newlines(chars.take(it.index() + 1)));
        }
    }
    assert(chars.take(chars.len() as int) =~= chars);
    r
}

/// Replacing line breaks leaves no line break behind.
pub proof fn law_one_line_has_no_line_break(s: Seq<char>)
    ensures
        forall|i: int| 0 <= i < replace_newlines(s).len() ==> replace_newlines(s)[i] != '\n',
    decreases s.len(),
{
    if s.len() > 0 {
        law_one_line_has_no_line_break(s.drop_last());
        reveal_strlit(", ");
        let head = replace_newlines(s.drop_last());
        let tail = if s.last() == '\n' {
            ", "@
        } else {
            seq![s.last()]
        };
        assert(replace_newlines(s) == head + tail);
        assert forall|i: int| 0 <= i < replace_newlines(s).len() implies replace_newlines(s)[i] != '\n' by {
            if i < head.len() {
                assert(replace_newlines(s)[i] == head[i]);
            } else {
                assert(replace_newlines(s)[i] == tail[i - head.len()]);
            }
        }
    }
}

/// The body of a validation error is a single line.
pub proof fn law_validation_body_is_one_line(e: ServerError)
    requires
        e is ValidationError,
    ensures
        forall|i: int| 0 <= i < e.response_body().len() ==> e.response_body()[i] != '\n',
{
    law_one_line_has_no_line_break("Input validation error: ["@ + e.text() + "]"@);
}

/// Replacing line breaks works character by character: on a joined text it
/// is the joined replacements.
pub proof fn law_one_line_distributes(a: Seq<char>, b: Seq<char>)
    ensures
        replace_newlines(a + b) == replace_newlines(a) + replace_newlines(b),
    decreases b.len(),
{
    if b.len() == 0 {
        assert(a + b =~= a);
        assert(replace_newlines(a) + replace_newlines(b) =~= replace_newlines(a));
    } else {
        law_one_line_distributes(a, b.drop_last());
        assert((a + b).drop_last() =~= a + b.drop_last());
        assert((a + b).last() == b.last());
        let tail = if b.last() == '\n' {
            ", "@
        } else {
            seq![b.last()]
        };
        assert(replace_newlines(a) + replace_newlines(b) =~= replace_newlines(a) + replace_newlines(b.drop_last())
            + tail);
    }
}

/// A line break becomes ", " and any other character stays itself.
pub proof fn law_one_line_per_character(c: char)
    ensures
        replace_newlines(seq![c]) == if c == '\n' {
            ", "@
        } else {
            seq![c]
        },
{
    assert(seq![c].drop_last() =~= Seq::<char>::empty());
    assert(replace_newlines(Seq::<char>::empty()) =~= Seq::<char>::empty());
    assert(seq![c].last() == c);
    assert(Seq::<char>::empty() + ", "@ =~= ", "@);
    assert(Seq::<char>::empty() + seq![c] =~= seq![c]);
}

/// A text without line breaks is left as it is.
pub proof fn law_one_line_keeps_single_lines(s: Seq<char>)
    requires
        forall|i: int| 0 <= i < s.len() ==> s[i] != '\n',
    ensures
        replace_newlines(s) == s,
    decreases s.len(),
{
    if s.len() > 0 {
        law_one_line_keeps_single_lines(s.drop_last());
        assert(replace_newlines(s.drop_last()) + seq![s.last()] =~= s);
    }
}

/// The status answers bad input (a failed validation or a rejected form)
/// with 400 and every other error with 500; the body of any error but a
/// validation error is the error's own text, and that of a validation error
/// is its text, on one line, framed as "Input validation error: [...]".
pub proof fn law_error_answers(e: ServerError)
    ensures
        e.response_status() == 400 <==> (e is ValidationError || e is AxumFormRejection),
        e.response_status() == 400 || e.response_status() == 500,
        !(e is ValidationError) ==> e.response_body() == e.text(),
        e is ValidationError ==> e.response_body() == "Input validation error: ["@ + replace_newlines(e.text())
            + "]"@,
{
    if e is ValidationError {
        reveal_strlit("Input validation error: [");
        reveal_strlit("]");
        let pre = "Input validation error: ["@;
        let post = "]"@;
        law_one_line_distributes(pre + e.text(), post);
        law_one_line_distributes(pre, e.text());
        law_one_line_keeps_single_lines(pre);
        law_one_line_keeps_single_lines(post);
    }
}

} // verus!
