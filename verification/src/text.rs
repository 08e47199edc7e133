//! The text of a serialized document.

use vstd::prelude::*;
use vstd::string::StrSliceExecFns;

verus! {

/// The line with which the emitter starts every document.
pub open spec fn document_start() -> Seq<char> {
    seq!['-', '-', '-', '\n']
}

/// `text` starts with the line that starts a document.
pub open spec fn has_document_start(text: Seq<char>) -> bool {
    text.len() >= 4 && text.subrange(0, 4) == document_start()
}

/// `text` without the line that starts a document, where it has one.
pub open spec fn without_document_start(text: Seq<char>) -> Seq<char> {
    if has_document_start(text) {
        text.skip(4)
    } else {
        text
    }
}

/// Removes the line that starts a document from the front of `text`. A text
/// that does not begin with that line comes back whole.
pub fn strip_document_start(text: &str) -> (r: String)
    ensures
        r@ == without_document_start(text@),
{
    let n = text.unicode_len();
    if n >= 4 && text.get_char(0) == '-' && text.get_char(1) == '-' && text.get_char(2) == '-'
        && text.get_char(3) == '\n' {
        assert(text@.subrange(0, 4) =~= document_start());
        text.substring_char(4, n).to_owned()
    } else {
        assert(!has_document_start(text@)) by {
            if text@.len() >= 4 {
                let head = text@.subrange(0, 4);
                assert(head[0] == text@[0] && head[1] == text@[1] && head[2] == text@[2]
                    && head[3] == text@[3]);
            }
        }
        text.to_owned()
    }
}

} // verus!
