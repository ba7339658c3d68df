//! Length-prefixed byte framing of the statements that are hashed or signed.
use vstd::prelude::*;

verus! {

/// The UTF-8 bytes of a text.
pub open spec fn utf8(text: Seq<char>) -> Seq<u8> {
    vstd::utf8::encode_utf8(text)
}

/// Texts with the same bytes are the same.
pub proof fn lemma_utf8_injective(left: Seq<char>, right: Seq<char>)
    requires
        utf8(left) == utf8(right),
    ensures
        left == right,
{
    vstd::utf8::encode_utf8_decode_utf8(left);
    vstd::utf8::encode_utf8_decode_utf8(right);
}

/// A text has at most four bytes for each character.
pub proof fn lemma_utf8_length(text: Seq<char>)
    ensures
        utf8(text).len() <= 4 * text.len(),
    decreases text.len(),
{
    if text.len() > 0 {
        lemma_utf8_length(text.drop_first());
    }
}

/// Eight bytes of a number, the most significant first.
pub open spec fn be64(value: nat) -> Seq<u8> {
    seq![
        (value / 0x100_0000_0000_0000 % 256) as u8,
        (value / 0x1_0000_0000_0000 % 256) as u8,
        (value / 0x100_0000_0000 % 256) as u8,
        (value / 0x1_0000_0000 % 256) as u8,
        (value / 0x100_0000 % 256) as u8,
        (value / 0x1_0000 % 256) as u8,
        (value / 0x100 % 256) as u8,
        (value % 256) as u8,
    ]
}

/// Eight bytes of a number, the least significant first.
pub open spec fn le64(value: nat) -> Seq<u8> {
    be64(value).reverse()
}

/// Four bytes of a number, the most significant first.
pub open spec fn be32(value: nat) -> Seq<u8> {
    seq![
        (value / 0x100_0000 % 256) as u8,
        (value / 0x1_0000 % 256) as u8,
        (value / 0x100 % 256) as u8,
        (value % 256) as u8,
    ]
}

/// Four bytes of a number, the least significant first.
pub open spec fn le32(value: nat) -> Seq<u8> {
    be32(value).reverse()
}

/// The unsigned number with the two's complement bits of a signed one.
pub open spec fn twos_complement(value: i64) -> nat {
    if value >= 0 {
        value as nat
    } else {
        (value + 0x1_0000_0000_0000_0000) as nat
    }
}

/// Different numbers of 64 bits have different bytes.
pub proof fn lemma_be64_injective(left: nat, right: nat)
    requires
        left < 0x1_0000_0000_0000_0000,
        right < 0x1_0000_0000_0000_0000,
        be64(left) == be64(right),
    ensures
        left == right,
{
    assert forall|i: int| 0 <= i < 8 implies be64(left)[i] == be64(right)[i] by {}
    lemma_be64_digits(left);
    lemma_be64_digits(right);
}

spec fn weigh(b: Seq<u8>) -> int {
    b[0] * 0x100_0000_0000_0000 + b[1] * 0x1_0000_0000_0000 + b[2] * 0x100_0000_0000 + b[3]
        * 0x1_0000_0000 + b[4] * 0x100_0000 + b[5] * 0x1_0000 + b[6] * 0x100 + b[7]
}

proof fn lemma_be64_digits(value: nat)
    requires
        value < 0x1_0000_0000_0000_0000,
    ensures
        value == weigh(be64(value)),
{
    let v = value as int;
    let a1 = v / 0x100;
    let a2 = v / 0x1_0000;
    let a3 = v / 0x100_0000;
    let a4 = v / 0x1_0000_0000;
    let a5 = v / 0x100_0000_0000;
    let a6 = v / 0x1_0000_0000_0000;
    let a7 = v / 0x100_0000_0000_0000;
    assert(v == a1 * 256 + v % 256);
    assert(a1 == a2 * 256 + a1 % 256);
    assert(a2 == a3 * 256 + a2 % 256);
    assert(a3 == a4 * 256 + a3 % 256);
    assert(a4 == a5 * 256 + a4 % 256);
    assert(a5 == a6 * 256 + a5 % 256);
    assert(a6 == a7 * 256 + a6 % 256);
    assert(a7 == a7 % 256);
}

/// A value with its length in front.
pub open spec fn frame(value: Seq<u8>) -> Seq<u8> {
    be64(value.len()) + value
}

/// A value with its length in front, least significant byte first.
pub open spec fn frame_le(value: Seq<u8>) -> Seq<u8> {
    le64(value.len()) + value
}

/// The lengths of values that a frame can hold.
pub open spec fn frameable(value: Seq<u8>) -> bool {
    value.len() < 0x1_0000_0000_0000_0000
}

/// A number behind equal bytes is determined by what follows from there.
pub proof fn lemma_word_cancel(p: Seq<u8>, u: nat, v: nat, x: Seq<u8>, y: Seq<u8>)
    requires
        u < 0x1_0000_0000_0000_0000,
        v < 0x1_0000_0000_0000_0000,
        p + be64(u) + x == p + be64(v) + y,
    ensures
        u == v,
        x == y,
{
    let left = p + be64(u) + x;
    let right = p + be64(v) + y;
    assert forall|i: int| 0 <= i < 8 implies be64(u)[i] == be64(v)[i] by {
        assert(left[p.len() + i] == be64(u)[i]);
        assert(right[p.len() + i] == be64(v)[i]);
    }
    assert(be64(u) =~= be64(v));
    lemma_be64_injective(u, v);
    lemma_tail_cancel(p + be64(u), x, y);
}

/// What follows equal bytes is determined.
pub proof fn lemma_tail_cancel(p: Seq<u8>, x: Seq<u8>, y: Seq<u8>)
    requires
        p + x == p + y,
    ensures
        x == y,
{
    let left = p + x;
    let right = p + y;
    assert(left.len() == p.len() + x.len());
    assert(right.len() == p.len() + y.len());
    assert forall|i: int| 0 <= i < x.len() implies x[i] == y[i] by {
        assert(left[p.len() + i] == x[i]);
        assert(right[p.len() + i] == y[i]);
    }
    assert(x =~= y);
}

/// A frame behind equal bytes is determined by what follows from there.
pub proof fn lemma_frame_cancel(p: Seq<u8>, a: Seq<u8>, b: Seq<u8>, x: Seq<u8>, y: Seq<u8>)
    requires
        frameable(a),
        frameable(b),
        p + frame(a) + x == p + frame(b) + y,
    ensures
        a == b,
        x == y,
{
    assert(p + frame(a) + x =~= p + be64(a.len()) + (a + x));
    assert(p + frame(b) + y =~= p + be64(b.len()) + (b + y));
    lemma_word_cancel(p, a.len(), b.len(), a + x, b + y);
    assert forall|i: int| 0 <= i < a.len() implies a[i] == b[i] by {
        assert((a + x)[i] == a[i]);
        assert((b + y)[i] == b[i]);
    }
    assert(a =~= b);
    lemma_tail_cancel(a, x, y);
}

/// A number behind equal bytes, least significant byte first, is determined by
/// what follows from there.
pub proof fn lemma_le64_cancel(p: Seq<u8>, u: nat, v: nat, x: Seq<u8>, y: Seq<u8>)
    requires
        u < 0x1_0000_0000_0000_0000,
        v < 0x1_0000_0000_0000_0000,
        p + le64(u) + x == p + le64(v) + y,
    ensures
        u == v,
        x == y,
{
    let left = p + le64(u) + x;
    let right = p + le64(v) + y;
    assert forall|i: int| 0 <= i < 8 implies be64(u)[i] == be64(v)[i] by {
        assert(left[p.len() + 7 - i] == le64(u)[7 - i]);
        assert(right[p.len() + 7 - i] == le64(v)[7 - i]);
    }
    assert(be64(u) =~= be64(v));
    lemma_be64_injective(u, v);
    lemma_tail_cancel(p + le64(u), x, y);
}

/// A frame behind equal bytes, least significant byte of its length first, is
/// determined by what follows from there.
pub proof fn lemma_frame_le_cancel(p: Seq<u8>, a: Seq<u8>, b: Seq<u8>, x: Seq<u8>, y: Seq<u8>)
    requires
        frameable(a),
        frameable(b),
        p + frame_le(a) + x == p + frame_le(b) + y,
    ensures
        a == b,
        x == y,
{
    assert(p + frame_le(a) + x =~= p + le64(a.len()) + (a + x));
    assert(p + frame_le(b) + y =~= p + le64(b.len()) + (b + y));
    lemma_le64_cancel(p, a.len(), b.len(), a + x, b + y);
    assert forall|i: int| 0 <= i < a.len() implies a[i] == b[i] by {
        assert((a + x)[i] == a[i]);
        assert((b + y)[i] == b[i]);
    }
    assert(a =~= b);
    lemma_tail_cancel(a, x, y);
}

/// One part of a statement.
pub enum Field {
    /// A text, as a frame of its bytes.
    Text(Seq<char>),
    /// A number, as eight bytes.
    Word(nat),
    /// A number, as four bytes.
    Half(nat),
    /// A truth value, as one byte.
    Flag(bool),
}

/// One byte for a truth value.
pub open spec fn flag(value: bool) -> Seq<u8> {
    seq![
        if value {
            1u8
        } else {
            0u8
        },
    ]
}

impl Field {
    /// The bytes of the part.
    pub open spec fn bytes(self) -> Seq<u8> {
        match self {
            Field::Text(text) => frame(utf8(text)),
            Field::Word(value) => be64(value),
            Field::Half(value) => be32(value),
            Field::Flag(value) => flag(value),
        }
    }

    /// The part can be told from its bytes.
    pub open spec fn in_range(self) -> bool {
        match self {
            Field::Text(text) => frameable(utf8(text)),
            Field::Word(value) => value < 0x1_0000_0000_0000_0000,
            Field::Half(value) => value < 0x1_0000_0000,
            Field::Flag(_) => true,
        }
    }

    /// Two parts are of one kind.
    pub open spec fn alike(self, other: Field) -> bool {
        match (self, other) {
            (Field::Text(_), Field::Text(_)) => true,
            (Field::Word(_), Field::Word(_)) => true,
            (Field::Half(_), Field::Half(_)) => true,
            (Field::Flag(_), Field::Flag(_)) => true,
            _ => false,
        }
    }
}

/// The bytes of the parts of a statement, in order.
pub open spec fn encoded(fields: Seq<Field>) -> Seq<u8>
    decreases fields.len(),
{
    if fields.len() == 0 {
        Seq::<u8>::empty()
    } else {
        encoded(fields.drop_last()) + fields.last().bytes()
    }
}

/// The parts of two statements are of the same kinds and can be told from
/// their bytes.
pub open spec fn same_shape(a: Seq<Field>, b: Seq<Field>) -> bool {
    &&& a.len() == b.len()
    &&& forall|i: int| 0 <= i < a.len() ==> (#[trigger] a[i]).alike(b[i])
    &&& forall|i: int| 0 <= i < a.len() ==> (#[trigger] a[i]).in_range()
    &&& forall|i: int| 0 <= i < b.len() ==> (#[trigger] b[i]).in_range()
}

/// A further part adds its bytes.
pub proof fn lemma_encoded_push(fields: Seq<Field>, field: Field)
    ensures
        encoded(fields.push(field)) == encoded(fields) + field.bytes(),
{
    assert(fields.push(field).drop_last() =~= fields);
}

/// The parts of two lists, one behind the other, add their bytes.
pub proof fn lemma_encoded_add(a: Seq<Field>, b: Seq<Field>)
    ensures
        encoded(a + b) == encoded(a) + encoded(b),
    decreases b.len(),
{
    if b.len() == 0 {
        assert(a + b =~= a);
        assert(encoded(a) + encoded(b) =~= encoded(a));
    } else {
        lemma_encoded_add(a, b.drop_last());
        assert((a + b).drop_last() =~= a + b.drop_last());
        assert(encoded(a) + encoded(b) =~= encoded(a) + encoded(b.drop_last()) + b.last().bytes());
    }
}

proof fn lemma_be32_injective(u: nat, v: nat)
    requires
        u < 0x1_0000_0000,
        v < 0x1_0000_0000,
        be32(u) == be32(v),
    ensures
        u == v,
{
    assert forall|i: int| 0 <= i < 4 implies be32(u)[i] == be32(v)[i] by {}
    let a1 = u / 0x100;
    let a2 = u / 0x1_0000;
    let a3 = u / 0x100_0000;
    let b1 = v / 0x100;
    let b2 = v / 0x1_0000;
    let b3 = v / 0x100_0000;
    assert(u == a1 * 256 + u % 256);
    assert(a1 == a2 * 256 + a1 % 256);
    assert(a2 == a3 * 256 + a2 % 256);
    assert(v == b1 * 256 + v % 256);
    assert(b1 == b2 * 256 + b1 % 256);
    assert(b2 == b3 * 256 + b2 % 256);
    assert(be32(u)[0] == be32(v)[0]);
    assert(be32(u)[1] == be32(v)[1]);
    assert(be32(u)[2] == be32(v)[2]);
    assert(be32(u)[3] == be32(v)[3]);
}

proof fn lemma_field_cancel(a: Field, b: Field, x: Seq<u8>, y: Seq<u8>)
    requires
        a.alike(b),
        a.in_range(),
        b.in_range(),
        a.bytes() + x == b.bytes() + y,
    ensures
        a == b,
        x == y,
{
    let e = Seq::<u8>::empty();
    match (a, b) {
        (Field::Text(s), Field::Text(t)) => {
            assert(e + frame(utf8(s)) + x =~= a.bytes() + x);
            assert(e + frame(utf8(t)) + y =~= b.bytes() + y);
            lemma_frame_cancel(e, utf8(s), utf8(t), x, y);
            lemma_utf8_injective(s, t);
        },
        (Field::Word(u), Field::Word(v)) => {
            assert(e + be64(u) + x =~= a.bytes() + x);
            assert(e + be64(v) + y =~= b.bytes() + y);
            lemma_word_cancel(e, u, v, x, y);
        },
        (Field::Half(u), Field::Half(v)) => {
            let left = a.bytes() + x;
            let right = b.bytes() + y;
            assert forall|i: int| 0 <= i < 4 implies be32(u)[i] == be32(v)[i] by {
                assert(left[i] == be32(u)[i]);
                assert(right[i] == be32(v)[i]);
            }
            assert(be32(u) =~= be32(v));
            lemma_be32_injective(u, v);
            lemma_tail_cancel(a.bytes(), x, y);
        },
        (Field::Flag(u), Field::Flag(v)) => {
            assert((a.bytes() + x)[0] == flag(u)[0]);
            assert((b.bytes() + y)[0] == flag(v)[0]);
            lemma_tail_cancel(a.bytes(), x, y);
        },
        _ => {},
    }
}

/// Parts of known kinds behind equal bytes are determined by the bytes that
/// follow from there.
pub proof fn lemma_fields_cancel(
    p: Seq<u8>,
    a: Seq<Field>,
    b: Seq<Field>,
    x: Seq<u8>,
    y: Seq<u8>,
)
    requires
        same_shape(a, b),
        p + encoded(a) + x == p + encoded(b) + y,
    ensures
        a == b,
        x == y,
    decreases a.len(),
{
    if a.len() == 0 {
        assert(a =~= b);
        assert(p + encoded(a) + x =~= p + x);
        assert(p + encoded(b) + y =~= p + y);
        lemma_tail_cancel(p, x, y);
    } else {
        let more_x = a.last().bytes() + x;
        let more_y = b.last().bytes() + y;
        assert(p + encoded(a) + x =~= p + encoded(a.drop_last()) + more_x);
        assert(p + encoded(b) + y =~= p + encoded(b.drop_last()) + more_y);
        assert(same_shape(a.drop_last(), b.drop_last()));
        lemma_fields_cancel(p, a.drop_last(), b.drop_last(), more_x, more_y);
        assert(a.last().alike(b.last()));
        lemma_field_cancel(a.last(), b.last(), x, y);
        assert(a =~= a.drop_last().push(a.last()));
        assert(b =~= b.drop_last().push(b.last()));
    }
}

/// Whole statements of the same kinds of parts are determined by their bytes.
pub proof fn lemma_encoded_injective(p: Seq<u8>, a: Seq<Field>, b: Seq<Field>)
    requires
        same_shape(a, b),
        p + encoded(a) == p + encoded(b),
    ensures
        a == b,
{
    let e = Seq::<u8>::empty();
    assert(p + encoded(a) + e =~= p + encoded(a));
    assert(p + encoded(b) + e =~= p + encoded(b));
    lemma_fields_cancel(p, a, b, e, e);
}

/// Append bytes.
pub fn push_all(output: &mut Vec<u8>, bytes: &[u8])
    ensures
        final(output)@ == old(output)@ + bytes@,
{
    let mut i: usize = 0;
    while i < bytes.len()
        invariant
            i <= bytes.len(),
            output@ == old(output)@ + bytes@.take(i as int),
        decreases bytes.len() - i,
    {
        output.push(bytes[i]);
        i = i + 1;
        assert(output@ =~= old(output)@ + bytes@.take(i as int));
    }
    assert(output@ =~= old(output)@ + bytes@);
}

/// Append eight bytes of a number, the most significant first.
pub fn push_be64(output: &mut Vec<u8>, value: u64)
    ensures
        final(output)@ == old(output)@ + be64(value as nat),
{
    output.push((value / 0x100_0000_0000_0000 % 256) as u8);
    output.push((value / 0x1_0000_0000_0000 % 256) as u8);
    output.push((value / 0x100_0000_0000 % 256) as u8);
    output.push((value / 0x1_0000_0000 % 256) as u8);
    output.push((value / 0x100_0000 % 256) as u8);
    output.push((value / 0x1_0000 % 256) as u8);
    output.push((value / 0x100 % 256) as u8);
    output.push((value % 256) as u8);
    assert(output@ =~= old(output)@ + be64(value as nat));
}

/// Append eight bytes of a number, the least significant first.
pub fn push_le64(output: &mut Vec<u8>, value: u64)
    ensures
        final(output)@ == old(output)@ + le64(value as nat),
{
    output.push((value % 256) as u8);
    output.push((value / 0x100 % 256) as u8);
    output.push((value / 0x1_0000 % 256) as u8);
    output.push((value / 0x100_0000 % 256) as u8);
    output.push((value / 0x1_0000_0000 % 256) as u8);
    output.push((value / 0x100_0000_0000 % 256) as u8);
    output.push((value / 0x1_0000_0000_0000 % 256) as u8);
    output.push((value / 0x100_0000_0000_0000 % 256) as u8);
    assert(output@ =~= old(output)@ + le64(value as nat));
}

/// Append four bytes of a number, the most significant first.
pub fn push_be32(output: &mut Vec<u8>, value: u32)
    ensures
        final(output)@ == old(output)@ + be32(value as nat),
{
    output.push((value / 0x100_0000 % 256) as u8);
    output.push((value / 0x1_0000 % 256) as u8);
    output.push((value / 0x100 % 256) as u8);
    output.push((value % 256) as u8);
    assert(output@ =~= old(output)@ + be32(value as nat));
}

/// Append four bytes of a number, the least significant first.
pub fn push_le32(output: &mut Vec<u8>, value: u32)
    ensures
        final(output)@ == old(output)@ + le32(value as nat),
{
    output.push((value % 256) as u8);
    output.push((value / 0x100 % 256) as u8);
    output.push((value / 0x1_0000 % 256) as u8);
    output.push((value / 0x100_0000 % 256) as u8);
    assert(output@ =~= old(output)@ + le32(value as nat));
}

/// Append eight bytes of a signed number, the most significant first.
pub fn push_be_i64(output: &mut Vec<u8>, value: i64)
    ensures
        final(output)@ == old(output)@ + be64(twos_complement(value)),
{
    let bits: u64 = if value >= 0 {
        value as u64
    } else {
        u64::MAX - ((-(value + 1)) as u64)
    };
    push_be64(output, bits);
}

/// Signed numbers with the same bits are the same.
pub proof fn lemma_twos_complement_injective(left: i64, right: i64)
    ensures
        twos_complement(left) < 0x1_0000_0000_0000_0000,
        twos_complement(left) == twos_complement(right) ==> left == right,
{
}

/// Append a value with its length in front.
pub fn push_bytes(output: &mut Vec<u8>, value: &[u8])
    ensures
        final(output)@ == old(output)@ + frame(value@),
{
    push_be64(output, value.len() as u64);
    push_all(output, value);
    assert(output@ =~= old(output)@ + frame(value@));
}

/// Append a value with its length in front, least significant byte first.
pub fn push_bytes_le(output: &mut Vec<u8>, value: &[u8])
    ensures
        final(output)@ == old(output)@ + frame_le(value@),
{
    push_le64(output, value.len() as u64);
    push_all(output, value);
    assert(output@ =~= old(output)@ + frame_le(value@));
}

/// Append a text with its length in bytes in front.
pub fn push_text(output: &mut Vec<u8>, text: &str)
    ensures
        final(output)@ == old(output)@ + frame(utf8(text@)),
{
    push_bytes(output, text.as_bytes());
}

/// A statement under construction. Its view is the list of its parts.
pub struct Statement {
    bytes: Vec<u8>,
    fields: Ghost<Seq<Field>>,
}

impl View for Statement {
    type V = Seq<Field>;

    closed spec fn view(&self) -> Seq<Field> {
        self.fields@
    }
}

impl Statement {
    /// The bytes are those of the parts.
    pub closed spec fn valid(self) -> bool {
        self.bytes@ == encoded(self.fields@)
    }

    /// A statement without parts.
    pub fn new() -> (statement: Statement)
        ensures
            statement.valid(),
            statement@ == Seq::<Field>::empty(),
    {
        let bytes: Vec<u8> = Vec::new();
        Statement { bytes, fields: Ghost(Seq::<Field>::empty()) }
    }

    /// Add a text.
    pub fn text(&mut self, text: &str)
        requires
            old(self).valid(),
        ensures
            final(self).valid(),
            final(self)@ == old(self)@.push(Field::Text(text@)),
    {
        push_text(&mut self.bytes, text);
        proof {
            lemma_encoded_push(self.fields@, Field::Text(text@));
        }
        self.fields = Ghost(self.fields@.push(Field::Text(text@)));
    }

    /// Add a number of eight bytes.
    pub fn word(&mut self, value: u64)
        requires
            old(self).valid(),
        ensures
            final(self).valid(),
            final(self)@ == old(self)@.push(Field::Word(value as nat)),
    {
        push_be64(&mut self.bytes, value);
        proof {
            lemma_encoded_push(self.fields@, Field::Word(value as nat));
        }
        self.fields = Ghost(self.fields@.push(Field::Word(value as nat)));
    }

    /// Add a signed number of eight bytes.
    pub fn signed(&mut self, value: i64)
        requires
            old(self).valid(),
        ensures
            final(self).valid(),
            final(self)@ == old(self)@.push(Field::Word(twos_complement(value))),
    {
        push_be_i64(&mut self.bytes, value);
        proof {
            lemma_encoded_push(self.fields@, Field::Word(twos_complement(value)));
        }
        self.fields = Ghost(self.fields@.push(Field::Word(twos_complement(value))));
    }

    /// Add a number of four bytes.
    pub fn half(&mut self, value: u32)
        requires
            old(self).valid(),
        ensures
            final(self).valid(),
            final(self)@ == old(self)@.push(Field::Half(value as nat)),
    {
        push_be32(&mut self.bytes, value);
        proof {
            lemma_encoded_push(self.fields@, Field::Half(value as nat));
        }
        self.fields = Ghost(self.fields@.push(Field::Half(value as nat)));
    }

    /// Add a truth value.
    pub fn flag(&mut self, value: bool)
        requires
            old(self).valid(),
        ensures
            final(self).valid(),
            final(self)@ == old(self)@.push(Field::Flag(value)),
    {
        if value {
            self.bytes.push(1);
        } else {
            self.bytes.push(0);
        }
        proof {
            lemma_encoded_push(self.fields@, Field::Flag(value));
            assert(self.bytes@ =~= encoded(self.fields@) + flag(value));
        }
        self.fields = Ghost(self.fields@.push(Field::Flag(value)));
    }

    /// The bytes of the statement behind a signing domain.
    pub fn in_domain(&self, name: &str) -> (output: Vec<u8>)
        requires
            self.valid(),
        ensures
            output@ == domain(name@) + encoded(self@),
    {
        in_domain(name, self.bytes.as_slice())
    }
}

/// The bytes of a text followed by a zero byte: a signing domain.
pub open spec fn domain(name: Seq<char>) -> Seq<u8> {
    utf8(name).push(0)
}

/// Put a signing domain in front of the bytes of a statement.
pub fn in_domain(name: &str, statement: &[u8]) -> (output: Vec<u8>)
    ensures
        output@ == domain(name@) + statement@,
{
    let mut output: Vec<u8> = Vec::new();
    push_all(&mut output, name.as_bytes());
    output.push(0);
    assert(output@ =~= domain(name@));
    push_all(&mut output, statement);
    output
}

/// Numbers are written in bytes that weigh up to them: the most significant byte
/// first, or last.
pub proof fn numbers_are_written_in_order(
    first: &mut Vec<u8>,
    last: &mut Vec<u8>,
    value: u64,
    done: (),
)
    requires
        call_ensures(push_be64, (first, value), done),
        call_ensures(push_le64, (last, value), done),
        old(first)@.len() == 0,
        old(last)@.len() == 0,
    ensures
        final(first)@.len() == 8,
        final(last)@.len() == 8,
        ({
            let b = final(first)@;
            value == b[0] * 0x100_0000_0000_0000 + b[1] * 0x1_0000_0000_0000 + b[2]
                * 0x100_0000_0000 + b[3] * 0x1_0000_0000 + b[4] * 0x100_0000 + b[5] * 0x1_0000
                + b[6] * 0x100 + b[7]
        }),
        forall|i: int| 0 <= i < 8 ==> #[trigger] final(last)@[i] == final(first)@[7 - i],
{
    assert(final(first)@ =~= be64(value as nat));
    assert(final(last)@ =~= le64(value as nat));
    lemma_be64_digits(value as nat);
}

/// A frame has the length of its value in the eight bytes in front, and the
/// value behind them.
pub proof fn frames_tell_their_length(output: &mut Vec<u8>, value: &[u8], done: ())
    requires
        call_ensures(push_bytes, (output, value), done),
    ensures
        final(output)@.len() == old(output)@.len() + 8 + value@.len(),
        final(output)@.take(old(output)@.len() as int) == old(output)@,
        final(output)@.skip((old(output)@.len() + 8) as int) == value@,
        final(output)@.subrange(
            old(output)@.len() as int,
            (old(output)@.len() + 8) as int,
        ) == be64(value@.len()),
{
    let before = old(output)@;
    let after = final(output)@;
    assert(after == before + (be64(value@.len()) + value@));
    assert(after.take(before.len() as int) =~= before);
    assert(after.skip((before.len() + 8) as int) =~= value@);
    assert(after.subrange(before.len() as int, (before.len() + 8) as int) =~= be64(value@.len()));
}

} // verus!
