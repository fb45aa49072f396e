//! Documentation text rendered as `///` comment lines.
use vstd::prelude::*;

use crate::formatter::{emit, lemma_text_concat, lemma_text_empty, text, Formatter};
use crate::text::{lines, lines_of};

verus! {

/// One documentation line: the marker, then a space and the line when it is not empty.
pub open spec fn doc_line(l: Seq<char>) -> Seq<char> {
    "///"@ + (if l.len() == 0 { Seq::empty() } else { " "@ + l }) + "\n"@
}

/// The first `n` of `ls` as documentation lines.
pub open spec fn doc_lines(ls: Seq<Seq<char>>, n: nat) -> Seq<char>
    decreases n,
{
    if n == 0 || n > ls.len() {
        Seq::empty()
    } else {
        doc_lines(ls, (n - 1) as nat) + doc_line(ls[n - 1])
    }
}

/// The rendering of documentation text `d`: one comment line per line of `d`.
pub open spec fn docs_text(d: Seq<char>) -> Seq<char> {
    doc_lines(lines(d), lines(d).len())
}

/// Documentation text.
pub struct Docs {
    docs: String,
}

impl View for Docs {
    type V = Seq<char>;

    closed spec fn view(&self) -> Seq<char> {
        self.docs@
    }
}

impl Clone for Docs {
    fn clone(&self) -> (r: Self)
        ensures
            r@ == self@,
    {
        Docs { docs: self.docs.clone() }
    }
}

impl Docs {
    /// Documentation holding `docs`.
    pub fn new(docs: &str) -> (r: Self)
        ensures
            r@ == docs@,
    {
        Docs { docs: docs.to_string() }
    }

    /// Formats the documentation, one `///` line per line of text.
    pub fn fmt(&self, fmt: &mut Formatter)
        ensures
            final(fmt)@ == emit(old(fmt)@, text(docs_text(self@))),
    {
        let ls = lines_of(self.docs.as_str());
        let ghost all = lines(self@);
        let ghost v0 = fmt@;
        let mut i: usize = 0;
        proof {
            lemma_text_empty(v0);
        }
        while i < ls.len()
            invariant
                i <= ls.len(),
                ls@.len() == all.len(),
                all == lines(self@),
                forall|k: int| 0 <= k < ls@.len() ==> #[trigger] ls@[k]@ == all[k],
                fmt@ == emit(v0, text(doc_lines(all, i as nat))),
            decreases ls.len() - i,
        {
            let ghost prev = doc_lines(all, i as nat);
            let ghost l = all[i as int];
            fmt.write("///");
            proof {
                lemma_text_concat(v0, prev, "///"@);
            }
            let ghost mid = if l.len() == 0 { Seq::<char>::empty() } else { " "@ + l };
            if ls[i].len() > 0 {
                fmt.write(" ");
                proof {
                    lemma_text_concat(v0, prev + "///"@, " "@);
                }
                fmt.write_chars(&ls[i]);
                proof {
                    lemma_text_concat(v0, prev + "///"@ + " "@, l);
                    assert(prev + "///"@ + " "@ + l =~= prev + "///"@ + mid);
                }
            } else {
                proof {
                    assert(prev + "///"@ =~= prev + "///"@ + mid);
                }
            }
            fmt.write("\n");
            proof {
                lemma_text_concat(v0, prev + "///"@ + mid, "\n"@);
            }
            i = i + 1;
            proof {
                assert(doc_lines(all, i as nat) == prev + doc_line(l));
                assert(prev + doc_line(l) =~= prev + "///"@ + mid + "\n"@);
            }
        }
    }

    /// Appends `other` to the text.
    pub fn append(&mut self, other: &str) -> (r: &mut Self)
        ensures
            r@ == old(self)@ + other@,
            *final(self) == *final(r),
    {
        self.docs.append(other);
        self
    }

    /// The documentation text.
    pub fn to_str(&self) -> (r: &str)
        ensures
            r@ == self@,
    {
        self.docs.as_str()
    }
}

} // verus!
