//! The optional metadata block at the head of a document.
//!
//! A document may open with a delimiter line, `---`. The block then runs up
//! to the next line that holds exactly `---`, and the Markdown body starts
//! behind that line. The closing line may be the last of the text, with or
//! without a line break at its end; the body is then empty. Without both
//! lines the whole text is Markdown.

use vstd::prelude::*;
use crate::text::{first_occurrence, occurs_at, occurs_in, split_once, strip_prefix, strip_suffix};

verus! {

/// The delimiter line that opens a document with front matter.
pub open spec fn opening() -> Seq<char> {
    seq!['-', '-', '-', '\n']
}

/// A delimiter line, with the line break that precedes it.
pub open spec fn fence() -> Seq<char> {
    seq!['\n', '-', '-', '-']
}

/// A delimiter line between two line breaks.
pub open spec fn closing() -> Seq<char> {
    seq!['\n', '-', '-', '-', '\n']
}

/// A closing delimiter starts at index `i`: a line break, then a line that
/// holds exactly `---` and that a line break or the end of the text ends.
pub open spec fn closes_at(text: Seq<char>, i: int) -> bool {
    &&& 0 <= i
    &&& i + 4 <= text.len()
    &&& text[i] == '\n'
    &&& text[i + 1] == '-'
    &&& text[i + 2] == '-'
    &&& text[i + 3] == '-'
    &&& (i + 4 == text.len() || text[i + 4] == '\n')
}

/// `i` is the leftmost index at which a closing delimiter starts.
pub open spec fn first_closing(text: Seq<char>, i: int) -> bool {
    &&& closes_at(text, i)
    &&& forall|j: int| 0 <= j < i ==> !#[trigger] closes_at(text, j)
}

/// The text opens with a delimiter line and holds a closing one.
pub open spec fn has_block(text: Seq<char>) -> bool {
    opening().is_prefix_of(text) && exists|i: int| #[trigger] closes_at(text, i)
}

/// Where the closing delimiter of a text with a block starts: at the line
/// break that ends the block, or that of the opening line where the block is
/// empty.
pub open spec fn closing_index(text: Seq<char>) -> int {
    choose|i: int| first_closing(text, i)
}

/// The block and the body of a text, as sequences of characters.
pub open spec fn front_matter_of(text: Seq<char>) -> (Option<Seq<char>>, Seq<char>) {
    if has_block(text) {
        let end = closing_index(text);
        let block = if end < 4 {
            Seq::<char>::empty()
        } else {
            text.subrange(4, end)
        };
        let body = if end + 5 <= text.len() {
            text.subrange(end + 5, text.len() as int)
        } else {
            Seq::<char>::empty()
        };
        (Some(block), body)
    } else {
        (None, text)
    }
}

/// A document cut into its metadata block and its Markdown body.
pub struct FrontMatter<'a> {
    /// The text between the delimiter lines, where the document has both.
    pub block: Option<&'a str>,
    /// The Markdown text.
    pub body: &'a str,
}

impl<'a> View for FrontMatter<'a> {
    type V = (Option<Seq<char>>, Seq<char>);

    open spec fn view(&self) -> (Option<Seq<char>>, Seq<char>) {
        (
            match self.block {
                Some(block) => Some(block@),
                None => None,
            },
            self.body@,
        )
    }
}

/// A text has at most one leftmost closing delimiter.
pub proof fn lemma_first_closing_unique(text: Seq<char>, i: int, j: int)
    requires
        first_closing(text, i),
        first_closing(text, j),
    ensures
        i == j,
{
}

/// The two patterns, character by character.
proof fn lemma_pattern_chars(text: Seq<char>, i: int)
    ensures
        occurs_at(text, fence(), i) <==> (0 <= i && i + 4 <= text.len() && text[i] == '\n' && text[i
            + 1] == '-' && text[i + 2] == '-' && text[i + 3] == '-'),
        occurs_at(text, closing(), i) <==> (0 <= i && i + 5 <= text.len() && text[i] == '\n'
            && text[i + 1] == '-' && text[i + 2] == '-' && text[i + 3] == '-' && text[i + 4]
            == '\n'),
{
    if 0 <= i && i + 4 <= text.len() {
        let w = text.subrange(i, i + 4);
        assert(w[0] == text[i] && w[1] == text[i + 1] && w[2] == text[i + 2] && w[3] == text[i + 3]);
        if text[i] == '\n' && text[i + 1] == '-' && text[i + 2] == '-' && text[i + 3] == '-' {
            assert(w =~= fence());
        }
    }
    if 0 <= i && i + 5 <= text.len() {
        let w = text.subrange(i, i + 5);
        assert(w[0] == text[i] && w[1] == text[i + 1] && w[2] == text[i + 2] && w[3] == text[i + 3]
            && w[4] == text[i + 4]);
        if text[i] == '\n' && text[i + 1] == '-' && text[i + 2] == '-' && text[i + 3] == '-'
            && text[i + 4] == '\n' {
            assert(w =~= closing());
        }
    }
}

/// A closing delimiter is a delimiter line between two line breaks, or one
/// behind a line break at the very end of the text.
proof fn lemma_closes_by_pattern(text: Seq<char>, i: int)
    ensures
        closes_at(text, i) <==> (occurs_at(text, closing(), i) || (occurs_at(text, fence(), i) && i
            + 4 == text.len())),
{
    lemma_pattern_chars(text, i);
}

/// Behind an opening delimiter line, a closing delimiter starts at index 3
/// exactly if the rest opens with a delimiter line, and at a later index
/// exactly if one starts in the rest, four places earlier.
proof fn lemma_closes_in_rest(text: Seq<char>, rest: Seq<char>, j: int)
    requires
        text == opening() + rest,
    ensures
        j < 3 ==> !closes_at(text, j),
        closes_at(text, 3) <==> (rest.len() >= 3 && rest[0] == '-' && rest[1] == '-' && rest[2]
            == '-' && (rest.len() == 3 || rest[3] == '\n')),
        j >= 4 ==> (closes_at(text, j) <==> closes_at(rest, j - 4)),
{
    assert(text.len() == rest.len() + 4);
    assert(forall|k: int| 0 <= k < 4 ==> text[k] == opening()[k]);
    assert(forall|k: int| 4 <= k < text.len() ==> text[k] == rest[k - 4]);
}

/// A document made of the opening line, a block, a closing line with its
/// line break and a body.
pub open spec fn framed(block: Seq<char>, body: Seq<char>) -> Seq<char> {
    opening() + block + closing() + body
}

/// A document made of the opening line, a block and a closing line that ends
/// the text.
pub open spec fn framed_to_end(block: Seq<char>) -> Seq<char> {
    opening() + block + fence()
}

/// The block of a framed document, between the line breaks that enclose it.
pub open spec fn enclosed(block: Seq<char>) -> Seq<char> {
    seq!['\n'] + block + seq!['\n']
}

/// In a framed document no closing delimiter starts before the end of a block
/// none of whose lines is a delimiter line.
proof fn lemma_no_earlier_closing(block: Seq<char>, tail: Seq<char>, j: int)
    requires
        !occurs_in(enclosed(block), closing()),
        0 <= j < block.len() + 4,
        tail.len() >= 3,
        tail[0] == '-' && tail[1] == '-' && tail[2] == '-',
    ensures
        !closes_at(opening() + block + seq!['\n'] + tail, j),
{
    let text = opening() + block + seq!['\n'] + tail;
    let lines = enclosed(block);
    assert(text.len() == block.len() + tail.len() + 5);
    assert(lines.len() == block.len() + 2);
    if closes_at(text, j) {
        assert(j >= 3) by {
            assert(forall|k: int| 0 <= k < 3 ==> text[k] == '-');
        }
        assert(forall|k: int| 3 <= k < block.len() + 5 ==> text[k] == #[trigger] lines[k - 3]) by {
            assert(text[3] == '\n');
            assert(forall|k: int| 4 <= k < block.len() + 4 ==> text[k] == block[k - 4]);
            assert(text[block.len() as int + 4] == '\n');
        }
        assert(forall|k: int| block.len() + 5 <= k < block.len() + 8 ==> text[k] == '-') by {
            assert(forall|k: int|
                block.len() + 5 <= k < text.len() ==> text[k] == tail[k - block.len() - 5]);
        }
        if j <= block.len() {
            let k = j - 3;
            assert(lines[k] == text[j]);
            assert(lines[k + 1] == text[j + 1]);
            assert(lines[k + 2] == text[j + 2]);
            assert(lines[k + 3] == text[j + 3]);
            assert(lines[k + 4] == text[j + 4]);
            lemma_pattern_chars(lines, k);
            assert(occurs_at(lines, closing(), k));
        } else {
            assert(text[j + 4] == '-');
        }
    }
}

/// A block none of whose lines is a delimiter line, set between the two
/// delimiter lines and followed by any body, is cut back into that block and
/// that body.
pub proof fn lemma_block_round_trip(block: Seq<char>, body: Seq<char>)
    requires
        !occurs_in(enclosed(block), closing()),
    ensures
        front_matter_of(framed(block, body)) == (Some(block), body),
{
    let text = framed(block, body);
    let tail = seq!['-', '-', '-', '\n'] + body;
    let end: int = block.len() as int + 4;
    assert(text =~= opening() + block + seq!['\n'] + tail);
    assert(text.subrange(0, 4) =~= opening());
    assert(closes_at(text, end));
    assert forall|j: int| 0 <= j < end implies !#[trigger] closes_at(text, j) by {
        lemma_no_earlier_closing(block, tail, j);
    }
    assert(first_closing(text, end));
    lemma_first_closing_unique(text, end, closing_index(text));
    assert(text.subrange(4, end) =~= block);
    assert(text.subrange(end + 5, text.len() as int) =~= body);
}

/// The same block behind the opening line, with a closing line that ends
/// the text, is cut back into that block and an empty body.
pub proof fn lemma_block_round_trip_at_end(block: Seq<char>)
    requires
        !occurs_in(enclosed(block), closing()),
    ensures
        front_matter_of(framed_to_end(block)) == (Some(block), Seq::<char>::empty()),
{
    let text = framed_to_end(block);
    let tail = seq!['-', '-', '-'];
    let end: int = block.len() as int + 4;
    assert(text =~= opening() + block + seq!['\n'] + tail);
    assert(text.subrange(0, 4) =~= opening());
    assert(closes_at(text, end));
    assert forall|j: int| 0 <= j < end implies !#[trigger] closes_at(text, j) by {
        lemma_no_earlier_closing(block, tail, j);
    }
    assert(first_closing(text, end));
    lemma_first_closing_unique(text, end, closing_index(text));
    assert(text.subrange(4, end) =~= block);
}

/// Cuts a document into its metadata block and its Markdown body.
pub fn split_front_matter<'a>(content: &'a str) -> (r: FrontMatter<'a>)
    ensures
        r@ == front_matter_of(content@),
        r.block is Some <==> has_block(content@),
        !opening().is_prefix_of(content@) ==> r.block is None && r.body@ == content@,
{
    proof {
        reveal_strlit("---\n");
        reveal_strlit("---");
        reveal_strlit("\n");
        reveal_strlit("\n---\n");
        reveal_strlit("\n---");
        reveal_strlit("");
    }
    assert("---\n"@ =~= opening());
    assert("\n---\n"@ =~= closing());
    assert("\n---"@ =~= fence());
    let rest = match strip_prefix(content, "---\n") {
        Some(rest) => rest,
        None => {
            return FrontMatter { block: None, body: content };
        },
    };
    proof {
        lemma_closes_in_rest(content@, rest@, 3);
        assert forall|j: int| 0 <= j < 3 implies !#[trigger] closes_at(content@, j) by {
            lemma_closes_in_rest(content@, rest@, j);
        }
    }
    match strip_prefix(rest, "---") {
        Some(after) => {
            assert(rest@.len() >= 3 && rest@[0] == '-' && rest@[1] == '-' && rest@[2] == '-') by {
                assert(rest@ == "---"@ + after@);
            }
            if after.is_empty() {
                proof {
                    assert(first_closing(content@, 3));
                    lemma_first_closing_unique(content@, 3, closing_index(content@));
                }
                return FrontMatter { block: Some(""), body: "" };
            }
            match strip_prefix(after, "\n") {
                Some(body) => {
                    proof {
                        assert(rest@[3] == '\n');
                        assert(first_closing(content@, 3));
                        lemma_first_closing_unique(content@, 3, closing_index(content@));
                        assert(body@ =~= content@.subrange(8, content@.len() as int));
                    }
                    return FrontMatter { block: Some(""), body };
                },
                None => {
                    assert(rest@[3] != '\n') by {
                        assert(after@.subrange(0, 1) =~= seq![after@[0]]);
                        assert(rest@[3] == after@[0]);
                    }
                },
            }
        },
        None => {
            assert(!(rest@.len() >= 3 && rest@[0] == '-' && rest@[1] == '-' && rest@[2] == '-')) by {
                if rest@.len() >= 3 {
                    let w = rest@.subrange(0, 3);
                    assert(w[0] == rest@[0] && w[1] == rest@[1] && w[2] == rest@[2]);
                    if rest@[0] == '-' && rest@[1] == '-' && rest@[2] == '-' {
                        assert(w =~= "---"@);
                    }
                }
            }
        },
    }
    assert(!closes_at(content@, 3));
    match split_once(rest, "\n---\n") {
        Some((block, body)) => {
            proof {
                let end: int = block@.len() as int + 4;
                lemma_closes_in_rest(content@, rest@, end);
                lemma_closes_by_pattern(rest@, end - 4);
                assert forall|j: int| 0 <= j < end implies !#[trigger] closes_at(content@, j) by {
                    lemma_closes_in_rest(content@, rest@, j);
                    if j >= 4 {
                        lemma_closes_by_pattern(rest@, j - 4);
                    }
                }
                assert(first_closing(content@, end));
                lemma_first_closing_unique(content@, end, closing_index(content@));
                assert(block@ =~= content@.subrange(4, end));
                assert(body@ =~= content@.subrange(end + 5, content@.len() as int));
            }
            FrontMatter { block: Some(block), body }
        },
        None => match strip_suffix(rest, "\n---") {
            Some(block) => {
                proof {
                    let end: int = block@.len() as int + 4;
                    assert(rest@.subrange(end - 4, rest@.len() as int) =~= fence());
                    lemma_closes_in_rest(content@, rest@, end);
                    lemma_closes_by_pattern(rest@, end - 4);
                    assert forall|j: int| 0 <= j < end implies !#[trigger] closes_at(
                        content@,
                        j,
                    ) by {
                        lemma_closes_in_rest(content@, rest@, j);
                        if j >= 4 {
                            lemma_closes_by_pattern(rest@, j - 4);
                        }
                    }
                    assert(first_closing(content@, end));
                    lemma_first_closing_unique(content@, end, closing_index(content@));
                    assert(block@ =~= content@.subrange(4, end));
                }
                FrontMatter { block: Some(block), body: "" }
            },
            None => {
                proof {
                    assert forall|j: int| !#[trigger] closes_at(content@, j) by {
                        lemma_closes_in_rest(content@, rest@, j);
                        if j >= 4 {
                            lemma_closes_by_pattern(rest@, j - 4);
                        }
                    }
                }
                FrontMatter { block: None, body: content }
            },
        },
    }
}

} // verus!
