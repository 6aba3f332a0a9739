//! Syntax errors of a document, as diagnostics.

use super::{diag_views, plain_diag, Diagnostic, DiagnosticSeverity, DiagnosticView};
use crate::document::{error_views, Document};
use crate::syntax::TextRange;
use vstd::prelude::*;

verus! {

/// The text with each space turned into a hyphen.
pub open spec fn hyphenated(s: Seq<char>) -> Seq<char> {
    s.map_values(|c: char| if c == ' ' { '-' } else { c })
}

/// The diagnostic of one syntax error: its code names the expected
/// construct when the parser gives one.
pub open spec fn syntax_diag(e: (TextRange, Seq<char>, Option<Seq<char>>)) -> DiagnosticView {
    plain_diag(
        e.0,
        DiagnosticSeverity::Error,
        match e.2 {
            Some(name) => "syntax/"@ + hyphenated(name),
            None => "syntax"@,
        },
        "syntax error: "@ + e.1,
    )
}

/// Appends `s` with each space turned into a hyphen.
pub fn push_hyphenated(out: &mut String, s: &str)
    ensures
        final(out)@ == old(out)@ + hyphenated(s@),
{
    let n = s.unicode_len();
    let mut i: usize = 0;
    while i < n
        invariant
            n == s@.len(),
            i <= n,
            out@ == old(out)@ + hyphenated(s@.take(i as int)),
        decreases n - i,
    {
        let ghost before = out@;
        if s.get_char(i) == ' ' {
            proof {
                reveal_strlit("-");
            }
            out.append("-");
            assert(out@ =~= before.push('-'));
        } else {
            let one = s.substring_char(i, i + 1);
            out.append(one);
            assert(one@ =~= seq![s@[i as int]]);
            assert(out@ =~= before.push(s@[i as int]));
        }
        assert(hyphenated(s@.take(i + 1)) =~= hyphenated(s@.take(i as int)).push(
            if s@[i as int] == ' ' { '-' } else { s@[i as int] },
        ));
        assert(out@ =~= old(out)@ + hyphenated(s@.take(i + 1)));
        i = i + 1;
    }
    assert(s@.take(n as int) =~= s@);
}

/// Reports each syntax error of the document, in order.
pub fn check(diagnostics: &mut Vec<Diagnostic>, document: &Document)
    ensures
        diag_views(final(diagnostics)@) == diag_views(old(diagnostics)@) + error_views(
            document.syntax_errors@,
        ).map_values(|e: (TextRange, Seq<char>, Option<Seq<char>>)| syntax_diag(e)),
{
    let ghost before = diag_views(diagnostics@);
    let errors = &document.syntax_errors;
    let ghost all = error_views(errors@).map_values(|e: (TextRange, Seq<char>, Option<Seq<char>>)| syntax_diag(e));
    let mut i: usize = 0;
    while i < errors.len()
        invariant
            i <= errors@.len(),
            all == error_views(errors@).map_values(|e: (TextRange, Seq<char>, Option<Seq<char>>)| syntax_diag(e)),
            diag_views(diagnostics@) == before + all.take(i as int),
        decreases errors@.len() - i,
    {
        let e = &errors[i];
        let code = match &e.name {
            Some(name) => {
                let mut code = String::from_str("syntax/");
                push_hyphenated(&mut code, name.as_str());
                code
            },
            None => String::from_str("syntax"),
        };
        let mut message = String::from_str("syntax error: ");
        message.append(e.message.as_str());
        let d = Diagnostic {
            range: e.range,
            severity: DiagnosticSeverity::Error,
            code,
            message,
            tags: None,
            data: None,
            related_information: None,
        };
        let ghost prev = diagnostics@;
        proof {
            assert(error_views(errors@)[i as int] == e@);
            assert(d@ == all[i as int]);
        }
        diagnostics.push(d);
        assert(diag_views(diagnostics@) =~= diag_views(prev).push(d@));
        assert(all.take(i + 1) =~= all.take(i as int).push(all[i as int]));
        i = i + 1;
    }
    assert(all.take(i as int) =~= all);
}

} // verus!
