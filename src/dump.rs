use vstd::prelude::*;

verus! {

/// The lowercase hexadecimal digit for `d`, for `0 <= d < 16`.
pub open spec fn hex_digit(d: int) -> char
    recommends
        0 <= d < 16,
{
    seq!['0', '1', '2', '3', '4', '5', '6', '7', '8', '9', 'a', 'b', 'c', 'd', 'e', 'f'][d]
}

/// A byte as two lowercase hexadecimal digits, high nibble first.
pub open spec fn hex_pair(b: u8) -> Seq<char> {
    seq![hex_digit(b as int / 16), hex_digit(b as int % 16)]
}

/// The text for the byte `b` standing at index `i` of the buffer: its two
/// digits, a space, and a line break after every sixteenth byte.
pub open spec fn byte_group(b: u8, i: int) -> Seq<char> {
    hex_pair(b) + seq![' '] + if (i + 1) % 16 == 0 {
        seq!['\n']
    } else {
        Seq::<char>::empty()
    }
}

/// The hex dump of `bytes`: the groups of all bytes, in order.
pub open spec fn dump_text(bytes: Seq<u8>) -> Seq<char>
    decreases bytes.len(),
{
    if bytes.len() == 0 {
        Seq::empty()
    } else {
        dump_text(bytes.drop_last()) + byte_group(bytes.last(), bytes.len() - 1)
    }
}

/// Where the group of byte `i` starts in a dump: three characters per byte
/// before it, and one line break per full line of sixteen.
pub open spec fn byte_pos(i: int) -> int {
    3 * i + i / 16
}

proof fn lemma_byte_pos_step(i: int)
    requires
        0 <= i,
    ensures
        byte_pos(i + 1) == byte_pos(i) + byte_group(0, i).len(),
        byte_group(0, i).len() == 3 + (if (i + 1) % 16 == 0 { 1int } else { 0int }),
{
    assert((i + 1) / 16 == i / 16 + (if (i + 1) % 16 == 0 { 1int } else { 0int })) by (nonlinear_arith)
        requires 0 <= i;
}

/// A dump renders every byte: its length is that of `byte_pos` at the
/// buffer's length, whatever the bytes hold.
pub proof fn lemma_dump_len(bytes: Seq<u8>)
    ensures
        dump_text(bytes).len() == byte_pos(bytes.len() as int),
    decreases bytes.len(),
{
    if bytes.len() > 0 {
        lemma_dump_len(bytes.drop_last());
        lemma_byte_pos_step(bytes.len() - 1);
    }
}

/// The dump of a prefix of the buffer is a prefix of the buffer's dump.
proof fn lemma_dump_prefix(bytes: Seq<u8>, k: int)
    requires
        0 <= k <= bytes.len(),
    ensures
        byte_pos(k) <= dump_text(bytes).len(),
        dump_text(bytes).subrange(0, byte_pos(k)) == dump_text(bytes.take(k)),
    decreases bytes.len(),
{
    lemma_dump_len(bytes);
    lemma_dump_len(bytes.take(k));
    assert(bytes.take(bytes.len() as int) == bytes);
    if k < bytes.len() {
        let init = bytes.drop_last();
        lemma_dump_prefix(init, k);
        lemma_dump_len(init);
        assert(init.take(k) == bytes.take(k));
        assert(dump_text(bytes).subrange(0, byte_pos(k)) == dump_text(init).subrange(0, byte_pos(k)));
    }
}

/// Byte `i` of the buffer appears at `byte_pos(i)` of the dump as its two hex
/// digits and a space, followed by a line break exactly when `i + 1` is a
/// multiple of sixteen.
pub proof fn lemma_dump_group(bytes: Seq<u8>, i: int)
    requires
        0 <= i < bytes.len(),
    ensures
        byte_pos(i + 1) <= dump_text(bytes).len(),
        dump_text(bytes).subrange(byte_pos(i), byte_pos(i) + 3) == hex_pair(bytes[i]) + seq![' '],
        (i + 1) % 16 == 0 ==> byte_pos(i + 1) == byte_pos(i) + 4 && dump_text(bytes)[byte_pos(i) + 3] == '\n',
        (i + 1) % 16 != 0 ==> byte_pos(i + 1) == byte_pos(i) + 3,
{
    lemma_dump_prefix(bytes, i + 1);
    lemma_byte_pos_step(i);
    let pre = bytes.take(i + 1);
    assert(pre.drop_last() == bytes.take(i));
    lemma_dump_len(bytes.take(i));
    let t = dump_text(bytes);
    assert(t.subrange(byte_pos(i), byte_pos(i) + 3) == dump_text(pre).subrange(byte_pos(i), byte_pos(i) + 3));
    assert(dump_text(pre).subrange(byte_pos(i), byte_pos(i) + 3) == hex_pair(bytes[i]) + seq![' ']);
    if (i + 1) % 16 == 0 {
        assert(t[byte_pos(i) + 3] == dump_text(pre)[byte_pos(i) + 3]);
    }
}

/// A buffer of zero bytes dumps as `00` at every byte.
pub proof fn lemma_zero_dump(bytes: Seq<u8>)
    requires
        forall|j: int| 0 <= j < bytes.len() ==> bytes[j] == 0,
    ensures
        dump_text(bytes).len() == byte_pos(bytes.len() as int),
        forall|i: int|
            0 <= i < bytes.len() ==> #[trigger] dump_text(bytes).subrange(byte_pos(i), byte_pos(i) + 3)
                == seq!['0', '0', ' '],
{
    lemma_dump_len(bytes);
    assert forall|i: int| 0 <= i < bytes.len() implies #[trigger] dump_text(bytes).subrange(
        byte_pos(i),
        byte_pos(i) + 3,
    ) == seq!['0', '0', ' '] by {
        lemma_dump_group(bytes, i);
        assert(hex_pair(0) + seq![' '] == seq!['0', '0', ' ']);
    }
}

/// Relies on `String::push`: appends one character to the end of the string.
#[verifier::external_body]
fn push_char(s: &mut String, c: char)
    ensures
        final(s)@ == old(s)@.push(c),
{
    s.push(c);
}

/// The lowercase hexadecimal digit for a nibble.
fn digit_char(d: u8) -> (c: char)
    requires
        d < 16,
    ensures
        c == hex_digit(d as int),
{
    match d {
        0 => '0',
        1 => '1',
        2 => '2',
        3 => '3',
        4 => '4',
        5 => '5',
        6 => '6',
        7 => '7',
        8 => '8',
        9 => '9',
        10 => 'a',
        11 => 'b',
        12 => 'c',
        13 => 'd',
        14 => 'e',
        _ => 'f',
    }
}

/// Renders `bytes` as a hex dump: two lowercase digits and a space per byte,
/// and a line break after every sixteenth byte.
pub fn render_hex(bytes: &[u8]) -> (r: String)
    ensures
        r@ == dump_text(bytes@),
{
    let mut out = String::new();
    let n = bytes.len();
    let mut i: usize = 0;
    while i < n
        invariant
            n == bytes@.len(),
            i <= n,
            out@ == dump_text(bytes@.take(i as int)),
        decreases n - i,
    {
        let b = bytes[i];
        push_char(&mut out, digit_char(b / 16));
        push_char(&mut out, digit_char(b % 16));
        push_char(&mut out, ' ');
        if i % 16 == 15 {
            push_char(&mut out, '\n');
        }
        proof {
            let next = bytes@.take(i + 1);
            assert(next.drop_last() == bytes@.take(i as int));
            assert(out@ == dump_text(next));
        }
        i = i + 1;
    }
    assert(bytes@.take(n as int) == bytes@);
    out
}

} // verus!
