use std::ops::Range;
use vstd::prelude::*;
use vstd::string::*;
use vstd::utf8::*;

use crate::glyph::{emoji_glyph, lookup_emoji};

verus! {

broadcast use encode_utf8_valid_utf8, encode_utf8_decode_utf8;

/// Number of bytes that the UTF-8 encoding of `s` takes.
pub open spec fn byte_len(s: Seq<char>) -> nat {
    encode_utf8(s).len()
}

/// The characters whose encoding lies between byte offsets `start` and `end` of `s`.
pub open spec fn byte_slice(s: Seq<char>, start: int, end: int) -> Seq<char> {
    decode_utf8(encode_utf8(s).subrange(start, end))
}

/// Whether `start..end` is a byte range of `s` whose ends fall on character boundaries.
pub open spec fn valid_byte_range(s: Seq<char>, start: int, end: int) -> bool {
    &&& 0 <= start <= end <= byte_len(s)
    &&& is_char_boundary(encode_utf8(s), start)
    &&& is_char_boundary(encode_utf8(s), end)
}

/// Encoding a concatenation encodes each part in turn.
pub proof fn lemma_encode_utf8_concat(a: Seq<char>, b: Seq<char>)
    ensures
        encode_utf8(a + b) == encode_utf8(a) + encode_utf8(b),
    decreases a.len(),
{
    if a.len() == 0 {
        assert(a + b =~= b);
        assert(encode_utf8(a) =~= Seq::<u8>::empty());
        assert(encode_utf8(a) + encode_utf8(b) =~= encode_utf8(b));
    } else {
        assert((a + b).drop_first() =~= a.drop_first() + b);
        assert((a + b)[0] == a[0]);
        lemma_encode_utf8_concat(a.drop_first(), b);
        assert(encode_utf8(a + b) =~= encode_utf8(a) + encode_utf8(b));
    }
}

/// A string of styled text: the text itself, style properties that apply to all of
/// it, and style properties that apply to byte ranges of it, in the order in which
/// they were added.
pub struct RichText<P> {
    defaults: Vec<P>,
    stack: Vec<(Range<usize>, P)>,
    text: String,
}

impl<P> RichText<P> {
    /// The text.
    pub closed spec fn text_view(&self) -> Seq<char> {
        self.text@
    }

    /// The properties that apply to the whole text.
    pub closed spec fn defaults_view(&self) -> Seq<P> {
        self.defaults@
    }

    /// The ranged properties, as `(start, end, property)`, in order of insertion.
    pub closed spec fn ranges_view(&self) -> Seq<(int, int, P)> {
        self.stack@.map_values(|e: (Range<usize>, P)| (e.0.start as int, e.0.end as int, e.1))
    }

    /// Every registered range lies within the text.
    pub open spec fn wf(&self) -> bool {
        forall|i: int|
            0 <= i < self.ranges_view().len() ==> {
                let r = #[trigger] self.ranges_view()[i];
                0 <= r.0 <= r.1 <= byte_len(self.text_view())
            }
    }

    proof fn lemma_wf_after_append(&self, after: &Self, tail: Seq<char>)
        requires
            self.wf(),
            after.stack@ == self.stack@,
            after.text_view() == self.text_view() + tail,
        ensures
            after.wf(),
            byte_len(after.text_view()) == byte_len(self.text_view()) + byte_len(tail),
    {
        lemma_encode_utf8_concat(self.text_view(), tail);
        assert(after.ranges_view() == self.ranges_view());
    }

    /// An empty text with the given default properties.
    pub fn new(defaults: Vec<P>) -> (r: Self)
        ensures
            r.wf(),
            r.text_view() == Seq::<char>::empty(),
            r.defaults_view() == defaults@,
            r.ranges_view() == Seq::<(int, int, P)>::empty(),
    {
        let r = RichText { defaults, stack: Vec::with_capacity(64), text: String::new() };
        assert(r.ranges_view() =~= Seq::<(int, int, P)>::empty());
        r
    }

    /// The number of ranged properties.
    pub fn attribute_count(&self) -> (r: usize)
        ensures
            r == self.ranges_view().len(),
    {
        self.stack.len()
    }

    /// The text.
    pub fn text(&self) -> (r: &str)
        ensures
            r@ == self.text_view(),
    {
        self.text.as_str()
    }

    /// The length of the text in bytes.
    pub fn byte_length(&self) -> (r: usize)
        ensures
            r == byte_len(self.text_view()),
    {
        self.text.as_str().as_bytes().len()
    }

    /// The properties that apply to the whole text.
    pub fn defaults(&self) -> (r: &Vec<P>)
        ensures
            r@ == self.defaults_view(),
    {
        &self.defaults
    }

    /// The ranged properties, in order of insertion.
    pub fn attributes(&self) -> (r: &Vec<(Range<usize>, P)>)
        ensures
            r@.map_values(|e: (Range<usize>, P)| (e.0.start as int, e.0.end as int, e.1))
                == self.ranges_view(),
    {
        &self.stack
    }

    /// The part of the text between two byte offsets.
    pub fn slice(&self, range: Range<usize>) -> (r: &str)
        requires
            valid_byte_range(self.text_view(), range.start as int, range.end as int),
        ensures
            r@ == byte_slice(self.text_view(), range.start as int, range.end as int),
            r.spec_bytes() == encode_utf8(self.text_view()).subrange(
                range.start as int,
                range.end as int,
            ),
    {
        let s = self.text.as_str();
        let ghost bytes = s.spec_bytes();
        let (_, tail) = s.split_at(range.start);
        let ghost tb = tail.spec_bytes();
        let n = range.end - range.start;
        proof {
            if n < tb.len() {
                is_char_boundary_iff_not_is_continuation_byte(bytes, range.end as int);
                is_char_boundary_iff_not_is_continuation_byte(tb, n as int);
                assert(tb[n as int] == bytes[range.end as int]);
            } else {
                is_char_boundary_start_end_of_seq(tb);
            }
        }
        let (piece, _) = tail.split_at(n);
        proof {
            assert(piece.spec_bytes() =~= bytes.subrange(range.start as int, range.end as int));
            assert(decode_utf8(encode_utf8(piece@)) == piece@);
        }
        piece
    }

    /// Whether the text between two byte offsets is an emoji glyph.
    pub fn is_emoji_range(&self, range: Range<usize>) -> (r: bool)
        requires
            valid_byte_range(self.text_view(), range.start as int, range.end as int),
        ensures
            r == emoji_glyph(byte_slice(self.text_view(), range.start as int, range.end as int)),
    {
        lookup_emoji(self.slice(range))
    }

    /// Appends text that no ranged property covers.
    pub fn add_str(&mut self, text: &str)
        requires
            old(self).wf(),
        ensures
            final(self).wf(),
            final(self).text_view() == old(self).text_view() + text@,
            final(self).defaults_view() == old(self).defaults_view(),
            final(self).ranges_view() == old(self).ranges_view(),
    {
        let ghost before = *self;
        self.text.append(text);
        proof {
            before.lemma_wf_after_append(self, text@);
        }
    }

    /// Appends text covered by one property.
    pub fn add_single(&mut self, text: &str, property: P)
        requires
            old(self).wf(),
        ensures
            final(self).wf(),
            final(self).text_view() == old(self).text_view() + text@,
            final(self).defaults_view() == old(self).defaults_view(),
            final(self).ranges_view() == old(self).ranges_view().push(
                (
                    byte_len(old(self).text_view()) as int,
                    (byte_len(old(self).text_view()) + byte_len(text@)) as int,
                    property,
                ),
            ),
    {
        let len = self.byte_length();
        let ghost before = *self;
        self.text.append(text);
        let end = self.byte_length();
        proof {
            before.lemma_wf_after_append(self, text@);
        }
        self.stack.push((len..end, property));
        assert(self.ranges_view() =~= old(self).ranges_view().push(
            (len as int, end as int, property),
        ));
    }

    /// Appends text covered by each of `properties`, one ranged entry per property.
    pub fn add_many(&mut self, text: &str, properties: Vec<P>)
        requires
            old(self).wf(),
        ensures
            final(self).wf(),
            final(self).text_view() == old(self).text_view() + text@,
            final(self).defaults_view() == old(self).defaults_view(),
            final(self).ranges_view() == old(self).ranges_view() + properties@.map_values(
                |p: P|
                    (
                        byte_len(old(self).text_view()) as int,
                        (byte_len(old(self).text_view()) + byte_len(text@)) as int,
                        p,
                    ),
            ),
    {
        let len = self.byte_length();
        let ghost before = *self;
        self.text.append(text);
        let end = self.byte_length();
        proof {
            before.lemma_wf_after_append(self, text@);
        }
        let ghost all = properties@;
        let n = properties.len();
        let ghost entry: spec_fn(P) -> (int, int, P) = |q: P| (len as int, end as int, q);
        let mut rest = properties;
        let mut i: usize = 0;
        while rest.len() > 0
            invariant
                self.wf(),
                self.text_view() == old(self).text_view() + text@,
                self.defaults_view() == old(self).defaults_view(),
                byte_len(self.text_view()) == end,
                len <= end,
                i + rest@.len() == all.len(),
                all.len() == n,
                forall|q: P| #[trigger] entry(q) == (len as int, end as int, q),
                rest@ == all.subrange(i as int, all.len() as int),
                self.ranges_view() == old(self).ranges_view() + all.subrange(0, i as int).map_values(
                    entry,
                ),
            decreases rest@.len(),
        {
            let p = rest.remove(0);
            assert(all.subrange(0, i + 1) =~= all.subrange(0, i as int).push(p));
            assert(rest@ =~= all.subrange(i + 1, all.len() as int));
            let ghost prev = self.ranges_view();
            let ghost done = all.subrange(0, i as int).map_values(entry);
            self.stack.push((len..end, p));
            assert(self.ranges_view() =~= prev.push((len as int, end as int, p)));
            assert(entry(p) == (len as int, end as int, p));
            assert(all.subrange(0, i + 1).map_values(entry) =~= done.push(entry(p)));
            assert((old(self).ranges_view() + done).push(entry(p)) =~= old(self).ranges_view()
                + done.push(entry(p)));
            i = i + 1;
        }
        assert(all.subrange(0, i as int) =~= all);
    }

    /// Appends a line break.
    pub fn add_newline(&mut self)
        requires
            old(self).wf(),
        ensures
            final(self).wf(),
            final(self).text_view() == old(self).text_view().push('\n'),
            final(self).defaults_view() == old(self).defaults_view(),
            final(self).ranges_view() == old(self).ranges_view(),
    {
        let newline = "\n";
        proof {
            reveal_strlit("\n");
            assert(newline@ =~= seq!['\n']);
        }
        let ghost before = *self;
        self.text.append(newline);
        proof {
            before.lemma_wf_after_append(self, newline@);
        }
        assert(self.text@ =~= old(self).text_view().push('\n'));
    }
}

} // verus!
