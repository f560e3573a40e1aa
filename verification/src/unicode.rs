//! Codepoint-addressed mutable text.
//!
//! `UnicodeString` pairs a UTF-8 backing string with an offset table that maps
//! each codepoint index to the byte position where that codepoint begins, so
//! that all public addressing is by codepoint index, never byte index.

use vstd::prelude::*;
use vstd::std_specs::iter::IteratorSpec;
use vstd::string::StringSliceAdditionalSpecFns;
use vstd::utf8::*;

verus! {

/// Number of bytes in the UTF-8 encoding of the character sequence `s`.
pub open spec fn encoded_len(s: Seq<char>) -> int {
    encode_utf8(s).len() as int
}

/// Number of bytes in the UTF-8 encoding of the single character `c`.
pub open spec fn utf8_width(c: char) -> int {
    encode_scalar(c as u32).len() as int
}

/// Byte position at which codepoint `i` begins within the UTF-8 encoding of `s`.
pub open spec fn byte_offset(s: Seq<char>, i: int) -> int {
    encoded_len(s.take(i))
}

/// UTF-8 encoding distributes over concatenation of character sequences.
pub proof fn lemma_encode_utf8_concat(a: Seq<char>, b: Seq<char>)
    ensures
        encode_utf8(a + b) == encode_utf8(a) + encode_utf8(b),
    decreases a.len(),
{
    if a.len() == 0 {
        assert(a + b =~= b);
        assert(encode_utf8(a) + encode_utf8(b) =~= encode_utf8(b));
    } else {
        lemma_encode_utf8_concat(a.drop_first(), b);
        assert((a + b).drop_first() =~= a.drop_first() + b);
        assert((a + b)[0] == a[0]);
        assert(encode_scalar(a[0] as u32) + (encode_utf8(a.drop_first()) + encode_utf8(b)) =~= (
        encode_scalar(a[0] as u32) + encode_utf8(a.drop_first())) + encode_utf8(b));
    }
}

/// Every character encodes to between one and four bytes.
pub proof fn lemma_utf8_width_bounds(c: char)
    ensures
        1 <= utf8_width(c) <= 4,
{
}

/// The encoding of a one-character sequence is the encoding of that character.
pub proof fn lemma_encoded_len_singleton(c: char)
    ensures
        encoded_len(seq![c]) == utf8_width(c),
{
    let e = seq![c];
    assert(e.len() == 1 && e[0] == c);
    assert(encode_utf8(e) == encode_scalar(c as u32) + encode_utf8(e.drop_first()));
    assert(e.drop_first() =~= Seq::<char>::empty());
    assert(encode_utf8(Seq::<char>::empty()) == Seq::<u8>::empty());
    assert(encode_scalar(c as u32) + Seq::<u8>::empty() =~= encode_scalar(c as u32));
}

/// Byte offsets within a concatenation: offsets in the left part are
/// unchanged, offsets in the right part are shifted by the left part's
/// encoded length.
pub proof fn lemma_byte_offset_concat(a: Seq<char>, b: Seq<char>, j: int)
    requires
        0 <= j <= a.len() + b.len(),
    ensures
        j <= a.len() ==> byte_offset(a + b, j) == byte_offset(a, j),
        j > a.len() ==> byte_offset(a + b, j) == encoded_len(a) + byte_offset(b, j - a.len()),
{
    if j <= a.len() {
        assert((a + b).take(j) =~= a.take(j));
    } else {
        assert((a + b).take(j) =~= a + b.take(j - a.len()));
        lemma_encode_utf8_concat(a, b.take(j - a.len()));
    }
}

/// Stepping one codepoint forward advances the byte offset by that
/// codepoint's encoded width.
pub proof fn lemma_byte_offset_step(s: Seq<char>, i: int)
    requires
        0 <= i < s.len(),
    ensures
        byte_offset(s, i + 1) == byte_offset(s, i) + utf8_width(s[i]),
{
    assert(s.take(i + 1) =~= s.take(i) + seq![s[i]]);
    lemma_encode_utf8_concat(s.take(i), seq![s[i]]);
    lemma_encoded_len_singleton(s[i]);
    assert(s.take(i).take(i) =~= s.take(i));
}

/// The byte offset at the end of the sequence is its total encoded length.
pub proof fn lemma_byte_offset_full(s: Seq<char>)
    ensures
        byte_offset(s, s.len() as int) == encoded_len(s),
{
    assert(s.take(s.len() as int) =~= s);
}

/// Byte offsets are strictly increasing: each later codepoint begins at
/// least one byte further on.
pub proof fn lemma_byte_offset_mono(s: Seq<char>, i: int, j: int)
    requires
        0 <= i <= j <= s.len(),
    ensures
        byte_offset(s, i) + (j - i) <= byte_offset(s, j),
    decreases j - i,
{
    if i < j {
        lemma_byte_offset_mono(s, i, j - 1);
        lemma_byte_offset_step(s, j - 1);
        lemma_utf8_width_bounds(s[j - 1]);
    }
}

/// The byte offset at the start of the sequence is zero.
pub proof fn lemma_byte_offset_zero(s: Seq<char>)
    ensures
        byte_offset(s, 0) == 0,
{
    assert(s.take(0) =~= Seq::<char>::empty());
}

/// Byte offsets within a suffix are the whole sequence's offsets shifted
/// back by the offset at which the suffix begins.
pub proof fn lemma_byte_offset_skip(s: Seq<char>, k: int, m: int)
    requires
        0 <= k <= s.len(),
        0 <= m <= s.len() - k,
    ensures
        byte_offset(s.skip(k), m) == byte_offset(s, k + m) - byte_offset(s, k),
{
    if m == 0 {
        lemma_byte_offset_zero(s.skip(k));
    } else {
        assert(s =~= s.take(k) + s.skip(k));
        lemma_byte_offset_concat(s.take(k), s.skip(k), k + m);
        assert(s.take(k).take(k) =~= s.take(k));
    }
}

/// How insertion of one codepoint moves the byte offsets: offsets before the
/// insertion point are unchanged, later ones shift forward by the inserted
/// codepoint's width.
pub proof fn lemma_byte_offset_insert(s: Seq<char>, k: int, c: char, j: int)
    requires
        0 <= k <= s.len(),
        0 <= j <= s.len() + 1,
    ensures
        j <= k ==> byte_offset(s.insert(k, c), j) == byte_offset(s, j),
        j > k ==> byte_offset(s.insert(k, c), j) == byte_offset(s, j - 1) + utf8_width(c),
{
    let t = s.insert(k, c);
    assert(t =~= s.take(k) + (seq![c] + s.skip(k)));
    lemma_byte_offset_concat(s.take(k), seq![c] + s.skip(k), j);
    lemma_encoded_len_singleton(c);
    if j <= k {
        assert(s.take(k).take(j) =~= s.take(j));
    } else {
        lemma_byte_offset_concat(seq![c], s.skip(k), j - k);
        if j - k <= 1 {
            assert(seq![c].take(1) =~= seq![c]);
        } else {
            lemma_byte_offset_skip(s, k, j - k - 1);
        }
    }
}

/// How erasing the codepoint range `[a, b)` moves the byte offsets: offsets
/// before `a` are unchanged, later ones shift back by the erased byte span.
pub proof fn lemma_byte_offset_erase(s: Seq<char>, a: int, b: int, j: int)
    requires
        0 <= a <= b <= s.len(),
        0 <= j <= s.len() - (b - a),
    ensures
        j <= a ==> byte_offset(s.take(a) + s.skip(b), j) == byte_offset(s, j),
        j > a ==> byte_offset(s.take(a) + s.skip(b), j) == byte_offset(s, j + (b - a)) - (
        byte_offset(s, b) - byte_offset(s, a)),
{
    lemma_byte_offset_concat(s.take(a), s.skip(b), j);
    if j <= a {
        assert(s.take(a).take(j) =~= s.take(j));
    } else {
        lemma_byte_offset_skip(s, b, j - a);
    }
}

/// Every byte offset produced by `byte_offset` is a character boundary of
/// the encoded byte sequence.
pub proof fn lemma_boundary_at_offset(s: Seq<char>, i: int)
    requires
        0 <= i <= s.len(),
    ensures
        is_char_boundary(encode_utf8(s), byte_offset(s, i)),
    decreases i,
{
    broadcast use encode_utf8_valid_utf8;

    let bytes = encode_utf8(s);
    if i == 0 {
        lemma_byte_offset_zero(s);
    } else {
        let m = byte_offset(s, i);
        lemma_byte_offset_zero(s);
        lemma_byte_offset_mono(s, 0, i);
        lemma_byte_offset_mono(s, i, s.len() as int);
        lemma_byte_offset_full(s);
        encode_utf8_first_scalar(s);
        assert(pop_first_scalar(bytes) =~= encode_utf8(s.drop_first()));
        lemma_boundary_at_offset(s.drop_first(), i - 1);
        assert(s.drop_first() =~= s.skip(1));
        lemma_byte_offset_skip(s, 1, i - 1);
        lemma_byte_offset_step(s, 0);
        assert(byte_offset(s.skip(1), i - 1) == m - utf8_width(s[0]));
        assert(length_of_first_scalar(bytes) == utf8_width(s[0]));
    }
}

/// A sequence never needs fewer bytes than codepoints.
pub proof fn lemma_len_le_encoded(s: Seq<char>)
    ensures
        s.len() <= encoded_len(s),
{
    lemma_byte_offset_zero(s);
    lemma_byte_offset_mono(s, 0, s.len() as int);
    lemma_byte_offset_full(s);
}

/// Inserting a codepoint and then removing it at the same index restores the
/// original content, as stated by the contracts of `insert` and `remove`.
pub proof fn lemma_insert_remove_inverse(s: Seq<char>, idx: int, ch: char)
    requires
        0 <= idx <= s.len(),
    ensures
        s.insert(idx, ch).remove(idx) == s,
{
    assert(s.insert(idx, ch).remove(idx) =~= s);
}

/// Draining the empty range `[idx, idx)` removes nothing and returns
/// nothing, as stated by the contract of `drain`.
pub proof fn lemma_drain_identity(s: Seq<char>, idx: int)
    requires
        0 <= idx <= s.len(),
    ensures
        s.subrange(idx, idx) == Seq::<char>::empty(),
        s.take(idx) + s.skip(idx) == s,
{
    assert(s.subrange(idx, idx) =~= Seq::<char>::empty());
    assert(s.take(idx) + s.skip(idx) =~= s);
}

/// Offset integrity: in a well-formed text run, re-decoding the encoded
/// bytes from the recorded offset of codepoint `i` yields exactly the
/// codepoints from `i` on.
pub proof fn lemma_offset_integrity(u: &UnicodeString, i: int)
    requires
        u.wf(),
        0 <= i < u@.len(),
    ensures
        decode_utf8(encode_utf8(u@).skip(u.offsets()[i] as int)) == u@.skip(i),
{
    assert(u.offsets()[i] as int == byte_offset(u@, i));
    lemma_encode_utf8_concat(u@.take(i), u@.skip(i));
    assert(u@.take(i) + u@.skip(i) =~= u@);
    assert(encode_utf8(u@).skip(u.offsets()[i] as int) =~= encode_utf8(u@.skip(i)));
    encode_utf8_decode_utf8(u@.skip(i));
}

/// Relies on `String::push`: appends the given character to the end of the
/// string. The resulting string's byte length is a `usize`, so its encoded
/// length fits in one.
#[verifier::external_body]
fn push_char(s: &mut String, ch: char)
    ensures
        final(s)@ == old(s)@.push(ch),
        encoded_len(final(s)@) <= usize::MAX,
{
    s.push(ch);
}

/// Number of bytes `c` occupies in UTF-8, computed from its scalar value.
pub fn char_utf8_width(c: char) -> (w: usize)
    ensures
        w == utf8_width(c),
{
    let u = c as u32;
    proof {
        vstd::utf8::char_is_scalar(c);
    }
    if u < 0x80 {
        1
    } else if u < 0x800 {
        2
    } else if u < 0x10000 {
        3
    } else {
        4
    }
}

/// Codepoint-addressed mutable text run.
///
/// The backing string holds the content as UTF-8; `chars` holds the same
/// content one codepoint per entry, giving constant-time random access; and
/// `inner_indices[i]` is the byte position at which codepoint `i` begins.
pub struct UnicodeString {
    inner_string: String,
    chars: Vec<char>,
    inner_indices: Vec<usize>,
}

impl View for UnicodeString {
    type V = Seq<char>;

    closed spec fn view(&self) -> Seq<char> {
        self.chars@
    }
}

impl UnicodeString {
    /// The offset table, one byte position per codepoint.
    pub closed spec fn offsets(&self) -> Seq<usize> {
        self.inner_indices@
    }

    /// The character content of the backing UTF-8 string.
    pub closed spec fn backing(&self) -> Seq<char> {
        self.inner_string@
    }

    /// Well-formedness: the backing string matches the codepoint sequence,
    /// and the offset table has one entry per codepoint, each equal to the
    /// true byte offset of that codepoint in the UTF-8 encoding.
    pub open spec fn wf(&self) -> bool {
        &&& self.backing() == self@
        &&& encoded_len(self@) <= usize::MAX
        &&& self.offsets().len() == self@.len()
        &&& forall|i: int|
            0 <= i < self@.len() ==> (#[trigger] self.offsets()[i]) as int == byte_offset(
                self@,
                i,
            )
    }

    /// An empty text run.
    pub fn new() -> (r: Self)
        ensures
            r.wf(),
            r@ == Seq::<char>::empty(),
    {
        UnicodeString { inner_string: String::new(), chars: Vec::new(), inner_indices: Vec::new() }
    }

    /// Codepoint count.
    pub fn length(&self) -> (n: usize)
        ensures
            n == self@.len(),
    {
        self.chars.len()
    }

    /// The recorded byte offset of codepoint `idx`, in constant time.
    pub fn offset_at(&self, idx: usize) -> (r: usize)
        requires
            self.wf(),
            idx < self@.len(),
        ensures
            r as int == byte_offset(self@, idx as int),
    {
        self.inner_indices[idx]
    }

    /// The codepoint at index `idx`, in constant time.
    pub fn char_at(&self, idx: usize) -> (c: char)
        requires
            idx < self@.len(),
        ensures
            c == self@[idx as int],
    {
        self.chars[idx]
    }

    /// Immutable view of the backing text from codepoint `idx` to the end,
    /// obtained by slicing the backing string at the recorded byte offset.
    pub fn suffix_from(&self, idx: usize) -> (r: &str)
        requires
            self.wf(),
            idx <= self@.len(),
        ensures
            r@ == self@.skip(idx as int),
    {
        let ghost cs = self@;
        let mid = if idx == self.chars.len() {
            proof {
                lemma_byte_offset_full(cs);
            }
            self.inner_string.as_str().len()
        } else {
            proof {
                assert(self.offsets()[idx as int] as int == byte_offset(cs, idx as int));
            }
            self.inner_indices[idx]
        };
        proof {
            lemma_boundary_at_offset(cs, idx as int);
            lemma_byte_offset_mono(cs, idx as int, cs.len() as int);
            lemma_byte_offset_full(cs);
        }
        let (_, suffix) = self.inner_string.as_str().split_at(mid);
        proof {
            lemma_encode_utf8_concat(cs.take(idx as int), cs.skip(idx as int));
            assert(cs.take(idx as int) + cs.skip(idx as int) =~= cs);
            assert(suffix.spec_bytes() =~= encode_utf8(cs.skip(idx as int)));
            encode_utf8_decode_utf8(suffix@);
            encode_utf8_decode_utf8(cs.skip(idx as int));
        }
        suffix
    }

    /// Immutable view of the full backing text.
    pub fn as_str(&self) -> (r: &str)
        requires
            self.wf(),
        ensures
            r@ == self@,
    {
        self.inner_string.as_str()
    }

    /// Rebuild a backing string from a codepoint vector.
    fn build_string(chars: &Vec<char>) -> (r: String)
        ensures
            r@ == chars@,
            encoded_len(chars@) <= usize::MAX,
    {
        let mut r = String::new();
        let mut i: usize = 0;
        proof {
            assert(chars@.take(0) =~= Seq::<char>::empty());
            assert(encode_utf8(Seq::<char>::empty()) == Seq::<u8>::empty());
        }
        while i < chars.len()
            invariant
                i <= chars@.len(),
                r@ == chars@.take(i as int),
                encoded_len(r@) <= usize::MAX,
            decreases chars@.len() - i,
        {
            push_char(&mut r, chars[i]);
            proof {
                assert(chars@.take(i as int).push(chars@[i as int]) =~= chars@.take(i + 1));
            }
            i = i + 1;
        }
        proof {
            assert(chars@.take(chars@.len() as int) =~= chars@);
        }
        r
    }

    /// Append one codepoint.
    pub fn push(&mut self, ch: char)
        requires
            old(self).wf(),
        ensures
            final(self).wf(),
            final(self)@ == old(self)@.push(ch),
    {
        let off = self.inner_string.as_str().len();
        proof {
            assert(off as int == encoded_len(old(self)@));
            lemma_byte_offset_full(old(self)@);
        }
        self.inner_indices.push(off);
        self.chars.push(ch);
        push_char(&mut self.inner_string, ch);
        proof {
            let oldc = old(self)@;
            let newc = self@;
            assert(self.backing() =~= newc);
            assert forall|i: int| 0 <= i < newc.len() implies (#[trigger] self.offsets()[i]) as int
                == byte_offset(newc, i) by {
                if i < oldc.len() {
                    assert(newc.take(i) =~= oldc.take(i));
                } else {
                    assert(newc.take(i) =~= oldc);
                    assert(oldc.take(oldc.len() as int) =~= oldc);
                }
            }
        }
    }

    /// Append each codepoint of `s`, in order.
    pub fn push_str(&mut self, s: &str)
        requires
            old(self).wf(),
        ensures
            final(self).wf(),
            final(self)@ == old(self)@ + s@,
    {
        let mut it = s.chars();
        proof {
            assert(old(self)@ + s@.take(0) =~= old(self)@);
            assert(s@.skip(0) =~= s@);
        }
        loop
            invariant
                self.wf(),
                it.obeys_prophetic_iter_laws(),
                it.decrease() is Some,
                it.remaining().len() <= s@.len(),
                it.remaining() == s@.skip(s@.len() - it.remaining().len()),
                self@ == old(self)@ + s@.take(s@.len() - it.remaining().len()),
            decreases it.decrease()->0,
        {
            let ghost done = s@.len() - it.remaining().len();
            match it.next() {
                Some(c) => {
                    proof {
                        assert(c == s@[done]);
                    }
                    self.push(c);
                    proof {
                        assert((old(self)@ + s@.take(done)).push(c) =~= old(self)@ + s@.take(
                            done + 1,
                        ));
                        assert(s@.skip(done).drop_first() =~= s@.skip(done + 1));
                    }
                }
                None => {
                    proof {
                        assert(s@.take(s@.len() as int) =~= s@);
                    }
                    return ;
                }
            }
        }
    }

    /// Build from a string slice, recording each codepoint's byte offset.
    pub fn from(src: &str) -> (r: Self)
        ensures
            r.wf(),
            r@ == src@,
    {
        let mut r = Self::new();
        r.push_str(src);
        proof {
            assert(Seq::<char>::empty() + src@ =~= src@);
        }
        r
    }

    /// Insert one codepoint at codepoint index `idx`. Later entries of the
    /// offset table shift forward by the inserted codepoint's byte width.
    pub fn insert(&mut self, idx: usize, ch: char)
        requires
            old(self).wf(),
            idx <= old(self)@.len(),
        ensures
            final(self).wf(),
            final(self)@ == old(self)@.insert(idx as int, ch),
    {
        let ghost oldc = old(self)@;
        if idx == self.chars.len() {
            self.push(ch);
            proof {
                assert(oldc.insert(idx as int, ch) =~= oldc.push(ch));
            }
        } else {
            let w = char_utf8_width(ch);
            let inner_idx = self.inner_indices[idx];
            let ghost pre = old(self).inner_indices@;
            self.chars.insert(idx, ch);
            self.inner_string = Self::build_string(&self.chars);
            self.inner_indices.insert(idx, inner_idx);
            let ghost newc = self.chars@;
            proof {
                assert(newc == oldc.insert(idx as int, ch));
                assert(newc.len() == oldc.len() + 1);
                assert(self.inner_indices@ == pre.insert(idx as int, inner_idx));
                assert forall|i: int| 0 <= i <= idx implies (#[trigger] self.inner_indices@[i])
                    as int == byte_offset(newc, i) by {
                    lemma_byte_offset_insert(oldc, idx as int, ch, i);
                    if i < idx {
                        assert(self.inner_indices@[i] == pre[i]);
                        assert(old(self).offsets()[i] as int == byte_offset(oldc, i));
                    } else {
                        assert(self.inner_indices@[i] == inner_idx);
                        assert(old(self).offsets()[idx as int] as int == byte_offset(
                            oldc,
                            idx as int,
                        ));
                    }
                }
                assert forall|i: int| idx + 1 <= i < newc.len() implies (
                #[trigger] self.inner_indices@[i]) as int == byte_offset(oldc, i - 1) by {
                    assert(self.inner_indices@[i] == pre[i - 1]);
                    assert(old(self).offsets()[i - 1] as int == byte_offset(oldc, i - 1));
                }
            }
            let mut j: usize = idx + 1;
            while j < self.inner_indices.len()
                invariant
                    idx < oldc.len(),
                    newc == oldc.insert(idx as int, ch),
                    newc.len() == oldc.len() + 1,
                    w == utf8_width(ch),
                    idx + 1 <= j <= self.inner_indices@.len(),
                    self.inner_indices@.len() == newc.len(),
                    self@ == newc,
                    self.backing() == newc,
                    encoded_len(newc) <= usize::MAX,
                    forall|i: int|
                        0 <= i < j ==> (#[trigger] self.inner_indices@[i]) as int == byte_offset(
                            newc,
                            i,
                        ),
                    forall|i: int|
                        j <= i < newc.len() ==> (#[trigger] self.inner_indices@[i]) as int
                            == byte_offset(oldc, i - 1),
                decreases self.inner_indices@.len() - j,
            {
                let v = self.inner_indices[j];
                proof {
                    lemma_byte_offset_insert(oldc, idx as int, ch, j as int);
                    lemma_byte_offset_mono(newc, j as int, newc.len() as int);
                    lemma_byte_offset_full(newc);
                    assert(v as int == byte_offset(oldc, j - 1));
                    assert(byte_offset(newc, j as int) <= encoded_len(newc));
                }
                self.inner_indices[j] = v + w;
                j = j + 1;
            }
            proof {
                assert forall|i: int| 0 <= i < newc.len() implies (#[trigger] self.offsets()[i])
                    as int == byte_offset(newc, i) by {
                    assert(self.offsets()[i] == self.inner_indices@[i]);
                }
            }
        }
    }

    /// Remove the codepoint at codepoint index `idx`. Later entries of the
    /// offset table shift back by the removed codepoint's byte width.
    pub fn remove(&mut self, idx: usize)
        requires
            old(self).wf(),
            idx < old(self)@.len(),
        ensures
            final(self).wf(),
            final(self)@ == old(self)@.remove(idx as int),
    {
        let ghost oldc = old(self)@;
        let ghost pre = old(self).inner_indices@;
        let ch = self.chars.remove(idx);
        let w = char_utf8_width(ch);
        self.inner_indices.remove(idx);
        self.inner_string = Self::build_string(&self.chars);
        let ghost newc = self.chars@;
        proof {
            assert(newc == oldc.remove(idx as int));
            assert(newc =~= oldc.take(idx as int) + oldc.skip(idx as int + 1));
            assert(newc.len() == oldc.len() - 1);
            assert(self.inner_indices@ == pre.remove(idx as int));
            assert forall|i: int| 0 <= i < idx implies (#[trigger] self.inner_indices@[i]) as int
                == byte_offset(newc, i) by {
                lemma_byte_offset_erase(oldc, idx as int, idx as int + 1, i);
                assert(self.inner_indices@[i] == pre[i]);
                assert(old(self).offsets()[i] as int == byte_offset(oldc, i));
            }
            assert forall|i: int| idx <= i < newc.len() implies (#[trigger] self.inner_indices@[i])
                as int == byte_offset(oldc, i + 1) by {
                assert(self.inner_indices@[i] == pre[i + 1]);
                assert(old(self).offsets()[i + 1] as int == byte_offset(oldc, i + 1));
            }
        }
        let mut j: usize = idx;
        while j < self.inner_indices.len()
            invariant
                idx < oldc.len(),
                newc == oldc.remove(idx as int),
                newc == oldc.take(idx as int) + oldc.skip(idx as int + 1),
                newc.len() == oldc.len() - 1,
                ch == oldc[idx as int],
                w == utf8_width(ch),
                idx <= j <= self.inner_indices@.len(),
                self.inner_indices@.len() == newc.len(),
                self@ == newc,
                self.backing() == newc,
                encoded_len(newc) <= usize::MAX,
                forall|i: int|
                    0 <= i < j ==> (#[trigger] self.inner_indices@[i]) as int == byte_offset(
                        newc,
                        i,
                    ),
                forall|i: int|
                    j <= i < newc.len() ==> (#[trigger] self.inner_indices@[i]) as int
                        == byte_offset(oldc, i + 1),
            decreases self.inner_indices@.len() - j,
        {
            let v = self.inner_indices[j];
            proof {
                lemma_byte_offset_erase(oldc, idx as int, idx as int + 1, j as int);
                lemma_byte_offset_step(oldc, idx as int);
                lemma_byte_offset_mono(oldc, idx as int + 1, j as int + 1);
                assert(v as int == byte_offset(oldc, j + 1));
            }
            self.inner_indices[j] = v - w;
            j = j + 1;
        }
        proof {
            assert forall|i: int| 0 <= i < newc.len() implies (#[trigger] self.offsets()[i]) as int
                == byte_offset(newc, i) by {
                assert(self.offsets()[i] == self.inner_indices@[i]);
            }
        }
    }

    /// Remove and return the substring spanning codepoints `[start, end)`.
    /// Later entries of the offset table shift back by the removed byte span.
    pub fn drain(&mut self, start: usize, end: usize) -> (r: String)
        requires
            old(self).wf(),
            start <= end,
            end <= old(self)@.len(),
        ensures
            final(self).wf(),
            r@ == old(self)@.subrange(start as int, end as int),
            final(self)@ == old(self)@.take(start as int) + old(self)@.skip(end as int),
    {
        let ghost oldc = old(self)@;
        let ghost newc = oldc.take(start as int) + oldc.skip(end as int);
        if start == end {
            proof {
                assert(oldc.subrange(start as int, end as int) =~= Seq::<char>::empty());
                assert(newc =~= oldc);
            }
            return String::new();
        }
        // collect the removed span
        let mut removed = String::new();
        let mut i: usize = start;
        proof {
            assert(oldc.subrange(start as int, start as int) =~= Seq::<char>::empty());
        }
        while i < end
            invariant
                start <= i <= end,
                end <= self@.len(),
                *self == *old(self),
                old(self).wf(),
                removed@ == oldc.subrange(start as int, i as int),
            decreases end - i,
        {
            push_char(&mut removed, self.chars[i]);
            proof {
                assert(oldc.subrange(start as int, i as int).push(oldc[i as int]) =~= oldc.subrange(
                    start as int,
                    i as int + 1,
                ));
            }
            i = i + 1;
        }
        // removed byte span
        let inner_start = self.inner_indices[start];
        proof {
            assert(old(self).offsets()[start as int] as int == byte_offset(oldc, start as int));
        }
        let inner_end = if end == self.chars.len() {
            proof {
                lemma_byte_offset_full(oldc);
            }
            self.inner_string.as_str().len()
        } else {
            proof {
                assert(old(self).offsets()[end as int] as int == byte_offset(oldc, end as int));
            }
            self.inner_indices[end]
        };
        proof {
            lemma_byte_offset_mono(oldc, start as int, end as int);
            assert(newc.len() == oldc.len() - (end - start));
        }
        let removed_bytes = inner_end - inner_start;
        // erase the span from the codepoint vector and the offset table
        let mut chars2: Vec<char> = Vec::new();
        let mut indices2: Vec<usize> = Vec::new();
        let mut j: usize = 0;
        proof {
            assert(newc.take(0) =~= Seq::<char>::empty());
        }
        while j < start
            invariant
                j <= start,
                start < end <= oldc.len(),
                *self == *old(self),
                old(self).wf(),
                newc == oldc.take(start as int) + oldc.skip(end as int),
                newc.len() == oldc.len() - (end - start),
                chars2@ == newc.take(j as int),
                indices2@.len() == j,
                forall|i: int|
                    0 <= i < j ==> (#[trigger] indices2@[i]) as int == byte_offset(newc, i),
            decreases start - j,
        {
            proof {
                lemma_byte_offset_erase(oldc, start as int, end as int, j as int);
                assert(old(self).offsets()[j as int] as int == byte_offset(oldc, j as int));
                assert(newc[j as int] == oldc[j as int]);
                assert(newc.take(j as int).push(newc[j as int]) =~= newc.take(j as int + 1));
            }
            chars2.push(self.chars[j]);
            indices2.push(self.inner_indices[j]);
            j = j + 1;
        }
        let mut j2: usize = end;
        proof {
            assert(newc.take(start as int) =~= oldc.take(start as int));
        }
        while j2 < self.chars.len()
            invariant
                end <= j2 <= oldc.len(),
                start < end <= oldc.len(),
                *self == *old(self),
                old(self).wf(),
                newc == oldc.take(start as int) + oldc.skip(end as int),
                newc.len() == oldc.len() - (end - start),
                inner_start as int == byte_offset(oldc, start as int),
                inner_end as int == byte_offset(oldc, end as int),
                removed_bytes == inner_end - inner_start,
                chars2@ == newc.take(j2 - (end - start)),
                indices2@.len() == j2 - (end - start),
                forall|i: int|
                    0 <= i < j2 - (end - start) ==> (#[trigger] indices2@[i]) as int == byte_offset(
                        newc,
                        i,
                    ),
            decreases oldc.len() - j2,
        {
            let ghost t = j2 - (end - start);
            proof {
                lemma_byte_offset_erase(oldc, start as int, end as int, t as int);
                lemma_byte_offset_mono(oldc, end as int, j2 as int);
                assert(old(self).offsets()[j2 as int] as int == byte_offset(oldc, j2 as int));
                assert(newc[t as int] == oldc[j2 as int]);
                assert(newc.take(t as int).push(newc[t as int]) =~= newc.take(t as int + 1));
            }
            chars2.push(self.chars[j2]);
            indices2.push(self.inner_indices[j2] - removed_bytes);
            j2 = j2 + 1;
        }
        self.chars = chars2;
        self.inner_indices = indices2;
        self.inner_string = Self::build_string(&self.chars);
        proof {
            assert(newc.take(newc.len() as int) =~= newc);
            assert forall|i: int| 0 <= i < newc.len() implies (#[trigger] self.offsets()[i]) as int
                == byte_offset(newc, i) by {
                assert(self.offsets()[i] == self.inner_indices@[i]);
            }
        }
        removed
    }
}

impl Clone for UnicodeString {
    /// The copy has the same content, backing text and offset table, so a
    /// well-formed original yields a well-formed copy.
    fn clone(&self) -> (r: Self)
        ensures
            r@ == self@,
            r.backing() == self.backing(),
            r.offsets() == self.offsets(),
    {
        let mut chars2: Vec<char> = Vec::new();
        let mut i: usize = 0;
        proof {
            assert(self.chars@.take(0) =~= Seq::<char>::empty());
        }
        while i < self.chars.len()
            invariant
                i <= self.chars@.len(),
                chars2@ == self.chars@.take(i as int),
            decreases self.chars@.len() - i,
        {
            chars2.push(self.chars[i]);
            proof {
                assert(self.chars@.take(i as int).push(self.chars@[i as int]) =~= self.chars@.take(
                    i as int + 1,
                ));
            }
            i = i + 1;
        }
        let mut indices2: Vec<usize> = Vec::new();
        let mut k: usize = 0;
        proof {
            assert(self.inner_indices@.take(0) =~= Seq::<usize>::empty());
        }
        while k < self.inner_indices.len()
            invariant
                k <= self.inner_indices@.len(),
                indices2@ == self.inner_indices@.take(k as int),
            decreases self.inner_indices@.len() - k,
        {
            indices2.push(self.inner_indices[k]);
            proof {
                assert(self.inner_indices@.take(k as int).push(self.inner_indices@[k as int])
                    =~= self.inner_indices@.take(k as int + 1));
            }
            k = k + 1;
        }
        proof {
            assert(self.chars@.take(self.chars@.len() as int) =~= self.chars@);
            assert(self.inner_indices@.take(self.inner_indices@.len() as int)
                =~= self.inner_indices@);
        }
        UnicodeString { inner_string: self.inner_string.clone(), chars: chars2, inner_indices: indices2 }
    }
}

} // verus!
