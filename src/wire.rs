//! The tag-length-value body encoding shared by every message kind: base-128
//! varints, field keys `number << 3 | wire_type`, varint and length-delimited
//! fields, and skipping of unknown 32- and 64-bit fields.
use vstd::prelude::*;

verus! {

/// The base-128 encoding of `v`, low seven bits first.
pub open spec fn varint(v: nat) -> Seq<u8>
    decreases v,
{
    if v < 128 {
        seq![v as u8]
    } else {
        seq![(v % 128 + 128) as u8] + varint(v / 128)
    }
}

/// Reads a varint of at most `room` bytes from the front of `s`: its value and
/// how many bytes it took.
pub open spec fn parse_varint(s: Seq<u8>, room: nat) -> Option<(nat, nat)>
    decreases room,
{
    if s.len() == 0 || room == 0 {
        None
    } else if s[0] < 128 {
        Some((s[0] as nat, 1))
    } else {
        match parse_varint(s.drop_first(), (room - 1) as nat) {
            None => None,
            Some((v, n)) => Some((((s[0] - 128) + 128 * v) as nat, n + 1)),
        }
    }
}

/// A varint of at most ten bytes whose value fits in 64 bits.
pub open spec fn read_varint(s: Seq<u8>) -> Option<(u64, nat)> {
    match parse_varint(s, 10) {
        Some((v, n)) => if v <= u64::MAX {
            Some((v as u64, n))
        } else {
            None
        },
        None => None,
    }
}

/// What a field holds, by wire type.
pub enum WireValue {
    Varint(u64),
    Bytes(Seq<u8>),
    /// A 32- or 64-bit field; no message reads one, so only its extent matters.
    Fixed,
}

pub struct WireField {
    pub number: u64,
    pub value: WireValue,
}

pub open spec fn field_key(number: u64, wire_type: nat) -> nat {
    number as nat * 8 + wire_type
}

pub open spec fn encode_field(f: WireField) -> Seq<u8> {
    match f.value {
        WireValue::Varint(v) => varint(field_key(f.number, 0)) + varint(v as nat),
        WireValue::Bytes(b) => varint(field_key(f.number, 2)) + varint(b.len()) + b,
        WireValue::Fixed => Seq::empty(),
    }
}

pub open spec fn encode_fields(fs: Seq<WireField>) -> Seq<u8>
    decreases fs.len(),
{
    if fs.len() == 0 {
        Seq::empty()
    } else {
        encode_field(fs[0]) + encode_fields(fs.drop_first())
    }
}

/// Reads one field from the front of `s`: the field and how many bytes it took.
pub open spec fn parse_field(s: Seq<u8>) -> Option<(WireField, nat)> {
    match read_varint(s) {
        None => None,
        Some((key, k)) => {
            let number = key / 8;
            let wire_type = key % 8;
            let t = s.skip(k as int);
            if key > u32::MAX || number == 0 {
                None
            } else if wire_type == 0 {
                match read_varint(t) {
                    None => None,
                    Some((v, m)) => Some((WireField { number, value: WireValue::Varint(v) }, k + m)),
                }
            } else if wire_type == 2 {
                match read_varint(t) {
                    None => None,
                    Some((len, m)) => if m + len <= t.len() {
                        Some(
                            (
                                WireField {
                                    number,
                                    value: WireValue::Bytes(t.subrange(m as int, m + len)),
                                },
                                (k + m + len) as nat,
                            ),
                        )
                    } else {
                        None
                    },
                }
            } else if wire_type == 1 {
                if 8 <= t.len() {
                    Some((WireField { number, value: WireValue::Fixed }, k + 8))
                } else {
                    None
                }
            } else if wire_type == 5 {
                if 4 <= t.len() {
                    Some((WireField { number, value: WireValue::Fixed }, k + 4))
                } else {
                    None
                }
            } else {
                None
            }
        },
    }
}

/// Splits a whole body into its fields, in order.
pub open spec fn parse_fields(s: Seq<u8>) -> Option<Seq<WireField>>
    decreases s.len(),
{
    if s.len() == 0 {
        Some(Seq::empty())
    } else {
        match parse_field(s) {
            None => None,
            Some((f, n)) => if 0 < n && n <= s.len() {
                match parse_fields(s.skip(n as int)) {
                    None => None,
                    Some(rest) => Some(seq![f] + rest),
                }
            } else {
                None
            },
        }
    }
}

/// The value of the last field numbered `number`: a repeated field overrides
/// the earlier ones.
pub open spec fn last_value(fs: Seq<WireField>, number: u64) -> Option<WireValue>
    decreases fs.len(),
{
    if fs.len() == 0 {
        None
    } else if fs.last().number == number {
        Some(fs.last().value)
    } else {
        last_value(fs.drop_last(), number)
    }
}

/// Every field whose number is in `varints` holds a varint, and every field
/// whose number is in `bytes` holds bytes.
pub open spec fn fields_typed(fs: Seq<WireField>, varints: Seq<u64>, bytes: Seq<u64>) -> bool {
    forall|i: int|
        0 <= i < fs.len() ==> (varints.contains(#[trigger] fs[i].number) ==> fs[i].value is Varint)
            && (bytes.contains(fs[i].number) ==> fs[i].value is Bytes)
}

/// A 32-bit field read from a varint keeps its low 32 bits.
pub open spec fn as_u32(v: Option<WireValue>) -> Option<u32> {
    match v {
        Some(WireValue::Varint(x)) => Some((x % 0x1_0000_0000) as u32),
        _ => None,
    }
}

pub open spec fn as_bytes(v: Option<WireValue>) -> Option<Seq<u8>> {
    match v {
        Some(WireValue::Bytes(b)) => Some(b),
        _ => None,
    }
}

pub open spec fn u32_field(number: u64, v: u32) -> WireField {
    WireField { number, value: WireValue::Varint(v as u64) }
}

pub open spec fn bytes_field(number: u64, b: Seq<u8>) -> WireField {
    WireField { number, value: WireValue::Bytes(b) }
}

pub open spec fn pow128(k: nat) -> nat
    decreases k,
{
    if k == 0 {
        1
    } else {
        128 * pow128((k - 1) as nat)
    }
}

proof fn lemma_varint_len(v: nat, k: nat)
    requires
        v < pow128(k),
        k >= 1,
    ensures
        1 <= varint(v).len() <= k,
    decreases v,
{
    if v >= 128 {
        reveal_with_fuel(pow128, 2);
        assert(k > 1);
        assert(v / 128 < pow128((k - 1) as nat));
        lemma_varint_len(v / 128, (k - 1) as nat);
    }
}

proof fn lemma_parse_varint(v: nat, rest: Seq<u8>, room: nat)
    requires
        varint(v).len() <= room,
    ensures
        parse_varint(varint(v) + rest, room) == Some((v, varint(v).len())),
    decreases v,
{
    let s = varint(v) + rest;
    if v >= 128 {
        assert(s.drop_first() =~= varint(v / 128) + rest);
        lemma_parse_varint(v / 128, rest, (room - 1) as nat);
    }
}

/// A varint of a 64-bit value reads back as that value.
pub proof fn lemma_read_varint(v: u64, rest: Seq<u8>)
    ensures
        read_varint(varint(v as nat) + rest) == Some((v, varint(v as nat).len())),
{
    reveal_with_fuel(pow128, 11);
    assert(pow128(10) == 1180591620717411303424nat);
    lemma_varint_len(v as nat, 10);
    lemma_parse_varint(v as nat, rest, 10);
}

proof fn lemma_parse_field(f: WireField, rest: Seq<u8>)
    requires
        1 <= f.number < 0x2000_0000,
        !(f.value is Fixed),
        f.value matches WireValue::Bytes(b) ==> b.len() <= u64::MAX,
    ensures
        parse_field(encode_field(f) + rest) == Some((f, encode_field(f).len())),
{
    let s = encode_field(f) + rest;
    match f.value {
        WireValue::Varint(v) => {
            let key = (f.number * 8) as u64;
            assert(field_key(f.number, 0) == key as nat);
            let kv = varint(key as nat);
            lemma_read_varint(key, varint(v as nat) + rest);
            assert(s =~= kv + (varint(v as nat) + rest));
            assert(key / 8 == f.number && key % 8 == 0) by (nonlinear_arith)
                requires key == f.number * 8;
            assert(s.skip(kv.len() as int) =~= varint(v as nat) + rest);
            lemma_read_varint(v, rest);
        },
        WireValue::Bytes(b) => {
            let key = (f.number * 8 + 2) as u64;
            assert(field_key(f.number, 2) == key as nat);
            let kv = varint(key as nat);
            let lv = varint(b.len());
            let blen = b.len() as u64;
            lemma_read_varint(key, lv + b + rest);
            assert(s =~= kv + (lv + b + rest));
            assert(key / 8 == f.number && key % 8 == 2) by (nonlinear_arith)
                requires key == f.number * 8 + 2;
            let t = s.skip(kv.len() as int);
            assert(t =~= varint(blen as nat) + (b + rest));
            lemma_read_varint(blen, b + rest);
            assert(t.subrange(lv.len() as int, (lv.len() + b.len()) as int) =~= b);
        },
        WireValue::Fixed => {},
    }
}

/// Field numbers and lengths that the encoding can carry.
pub open spec fn encodable(fs: Seq<WireField>) -> bool {
    forall|i: int|
        0 <= i < fs.len() ==> 1 <= (#[trigger] fs[i]).number < 0x2000_0000 && !(fs[i].value is Fixed)
            && (fs[i].value matches WireValue::Bytes(b) ==> b.len() <= u64::MAX)
}

/// Encoding a list of fields and splitting the bytes again gives back the list.
pub proof fn lemma_parse_encode_fields(fs: Seq<WireField>)
    requires
        encodable(fs),
    ensures
        parse_fields(encode_fields(fs)) == Some(fs),
    decreases fs.len(),
{
    if fs.len() > 0 {
        let rest = encode_fields(fs.drop_first());
        let s = encode_fields(fs);
        assert(fs[0] == fs[0]);
        lemma_parse_field(fs[0], rest);
        assert(s.skip(encode_field(fs[0]).len() as int) =~= rest);
        assert(encodable(fs.drop_first())) by {
            assert forall|i: int| 0 <= i < fs.drop_first().len() implies 1 <= (
            #[trigger] fs.drop_first()[i]).number < 0x2000_0000 by {
                assert(fs.drop_first()[i] == fs[i + 1]);
            }
        }
        lemma_parse_encode_fields(fs.drop_first());
        assert(seq![fs[0]] + fs.drop_first() =~= fs);
    }
}

// ---------------------------------------------------------------------------
// Executable encoding
// ---------------------------------------------------------------------------

pub fn put_varint(out: &mut Vec<u8>, v: u64)
    ensures
        final(out)@ == old(out)@ + varint(v as nat),
    decreases v,
{
    if v < 128 {
        out.push(v as u8);
        assert(final(out)@ =~= old(out)@ + varint(v as nat));
    } else {
        out.push((v % 128 + 128) as u8);
        put_varint(out, v / 128);
        assert(final(out)@ =~= old(out)@ + varint(v as nat));
    }
}

pub fn put_u32_field(out: &mut Vec<u8>, number: u64, v: u32)
    requires
        1 <= number < 0x2000_0000,
    ensures
        final(out)@ == old(out)@ + encode_field(u32_field(number, v)),
{
    put_varint(out, number * 8);
    put_varint(out, v as u64);
    assert(final(out)@ =~= old(out)@ + encode_field(u32_field(number, v)));
}

pub fn put_bytes_field(out: &mut Vec<u8>, number: u64, b: &[u8])
    requires
        1 <= number < 0x2000_0000,
    ensures
        final(out)@ == old(out)@ + encode_field(bytes_field(number, b@)),
{
    put_varint(out, number * 8 + 2);
    put_varint(out, b.len() as u64);
    let ghost before = out@;
    let mut i: usize = 0;
    while i < b.len()
        invariant
            i <= b@.len(),
            out@ == before + b@.subrange(0, i as int),
        decreases b@.len() - i,
    {
        out.push(b[i]);
        i = i + 1;
        assert(out@ =~= before + b@.subrange(0, i as int));
    }
    assert(b@.subrange(0, b@.len() as int) =~= b@);
    assert(final(out)@ =~= old(out)@ + encode_field(bytes_field(number, b@)));
}

// ---------------------------------------------------------------------------
// Executable decoding
// ---------------------------------------------------------------------------

fn read_varint_from(s: &[u8], pos: usize, end: usize, room: usize) -> (r: Option<(u64, usize)>)
    requires
        pos <= end <= s@.len(),
    ensures
        match parse_varint(s@.subrange(pos as int, end as int), room as nat) {
            Some((v, n)) => if v <= u64::MAX {
                r is Some && r.unwrap().0 == v && r.unwrap().1 == n
            } else {
                r is None
            },
            None => r is None,
        },
        r is Some ==> 1 <= r.unwrap().1 <= room && pos + r.unwrap().1 <= end,
    decreases room,
{
    if pos == end || room == 0 {
        return None;
    }
    let b = s[pos];
    if b < 128 {
        return Some((b as u64, 1));
    }
    let ghost t = s@.subrange(pos as int, end as int);
    assert(t.drop_first() =~= s@.subrange(pos + 1, end as int));
    proof {
        lemma_parse_varint_len(t.drop_first(), (room - 1) as nat);
    }
    match read_varint_from(s, pos + 1, end, room - 1) {
        None => None,
        Some((v, n)) => {
            let low = (b - 128) as u64;
            if v > (u64::MAX - low) / 128 {
                assert(low + 128 * v > u64::MAX) by (nonlinear_arith)
                    requires
                        v > (u64::MAX - low) / 128,
                        low < 128,
                ;
                None
            } else {
                assert(low + 128 * v <= u64::MAX) by (nonlinear_arith)
                    requires
                        v <= (u64::MAX - low) / 128,
                        low < 128,
                ;
                Some((low + 128 * v, n + 1))
            }
        },
    }
}

proof fn lemma_parse_varint_len(s: Seq<u8>, room: nat)
    ensures
        parse_varint(s, room) matches Some((v, n)) ==> 1 <= n <= room && n <= s.len(),
    decreases room,
{
    if s.len() > 0 && room > 0 && s[0] >= 128 {
        lemma_parse_varint_len(s.drop_first(), (room - 1) as nat);
    }
}

/// Where a field's value lies in the buffer being read.
#[derive(Clone, Copy)]
pub enum SlotValue {
    Varint(u64),
    Bytes(usize, usize),
    Fixed,
}

#[derive(Clone, Copy)]
pub struct FieldSlot {
    pub number: u64,
    pub value: SlotValue,
}

pub open spec fn value_matches(s: Seq<u8>, v: SlotValue, w: WireValue) -> bool {
    match v {
        SlotValue::Varint(x) => w == WireValue::Varint(x),
        SlotValue::Bytes(a, b) => a <= b <= s.len() && w == WireValue::Bytes(
            s.subrange(a as int, b as int),
        ),
        SlotValue::Fixed => w == WireValue::Fixed,
    }
}

pub open spec fn slots_match(s: Seq<u8>, slots: Seq<FieldSlot>, fs: Seq<WireField>) -> bool {
    slots.len() == fs.len() && forall|i: int|
        0 <= i < slots.len() ==> (#[trigger] slots[i]).number == fs[i].number && value_matches(
            s,
            slots[i].value,
            fs[i].value,
        )
}

fn parse_field_at(s: &[u8], pos: usize, end: usize) -> (r: Option<(FieldSlot, usize)>)
    requires
        pos <= end <= s@.len(),
    ensures
        match parse_field(s@.subrange(pos as int, end as int)) {
            None => r is None,
            Some((f, n)) => r is Some && r.unwrap().1 == n && r.unwrap().0.number == f.number
                && value_matches(s@, r.unwrap().0.value, f.value),
        },
{
    let ghost t = s@.subrange(pos as int, end as int);
    let (key, k) = match read_varint_from(s, pos, end, 10) {
        None => return None,
        Some(x) => x,
    };
    assert(read_varint(t) == Some((key, k as nat)));
    let number = key / 8;
    let wire_type = key % 8;
    if key > 0xffff_ffff || number == 0 {
        return None;
    }
    let p = pos + k;
    assert(t.skip(k as int) =~= s@.subrange(p as int, end as int));
    if wire_type == 0 {
        match read_varint_from(s, p, end, 10) {
            None => None,
            Some((v, m)) => Some((FieldSlot { number, value: SlotValue::Varint(v) }, k + m)),
        }
    } else if wire_type == 2 {
        match read_varint_from(s, p, end, 10) {
            None => None,
            Some((len, m)) => {
                if len > (end - p - m) as u64 {
                    None
                } else {
                    let a = p + m;
                    let b = a + len as usize;
                    assert(t.skip(k as int).subrange(m as int, m + len) =~= s@.subrange(
                        a as int,
                        b as int,
                    ));
                    Some((FieldSlot { number, value: SlotValue::Bytes(a, b) }, k + m + len as usize))
                }
            },
        }
    } else if wire_type == 1 {
        if end - p >= 8 {
            Some((FieldSlot { number, value: SlotValue::Fixed }, k + 8))
        } else {
            None
        }
    } else if wire_type == 5 {
        if end - p >= 4 {
            Some((FieldSlot { number, value: SlotValue::Fixed }, k + 4))
        } else {
            None
        }
    } else {
        None
    }
}

/// Splits `s[start..end]` into fields; `None` where the bytes are not a
/// well-formed body.
pub fn parse_body(s: &[u8], start: usize, end: usize) -> (r: Option<Vec<FieldSlot>>)
    requires
        start <= end <= s@.len(),
    ensures
        match parse_fields(s@.subrange(start as int, end as int)) {
            None => r is None,
            Some(fs) => r is Some && slots_match(s@, r.unwrap()@, fs),
        },
{
    let mut out: Vec<FieldSlot> = Vec::new();
    let ghost mut acc: Seq<WireField> = Seq::empty();
    let mut pos = start;
    while pos < end
        invariant
            start <= pos <= end <= s@.len(),
            slots_match(s@, out@, acc),
            parse_fields(s@.subrange(start as int, end as int)) == match parse_fields(
                s@.subrange(pos as int, end as int),
            ) {
                None => None,
                Some(rest) => Some(acc + rest),
            },
        decreases end - pos,
    {
        let ghost t = s@.subrange(pos as int, end as int);
        match parse_field_at(s, pos, end) {
            None => {
                return None;
            },
            Some((slot, n)) => {
                if n == 0 || n > end - pos {
                    return None;
                }
                let ghost f = parse_field(t).unwrap().0;
                assert(t.skip(n as int) =~= s@.subrange(pos + n, end as int));
                proof {
                    match parse_fields(t.skip(n as int)) {
                        None => {},
                        Some(rest) => {
                            assert(acc + (seq![f] + rest) =~= acc.push(f) + rest);
                        },
                    }
                }
                out.push(slot);
                proof {
                    acc = acc.push(f);
                }
                pos = pos + n;
            },
        }
    }
    assert(s@.subrange(pos as int, end as int) =~= Seq::<u8>::empty());
    assert(acc + Seq::<WireField>::empty() =~= acc);
    Some(out)
}

/// The value of the last field numbered `number`, if any.
pub fn find_last(
    slots: &Vec<FieldSlot>,
    number: u64,
    Ghost(s): Ghost<Seq<u8>>,
    Ghost(fs): Ghost<Seq<WireField>>,
) -> (r: Option<SlotValue>)
    requires
        slots_match(s, slots@, fs),
    ensures
        match last_value(fs, number) {
            None => r is None,
            Some(w) => r is Some && value_matches(s, r.unwrap(), w),
        },
{
    let mut i = slots.len();
    assert(fs.take(i as int) =~= fs);
    while i > 0
        invariant
            i <= slots@.len(),
            slots_match(s, slots@, fs),
            last_value(fs, number) == last_value(fs.take(i as int), number),
        decreases i,
    {
        i = i - 1;
        assert(fs.take(i + 1).drop_last() =~= fs.take(i as int));
        if slots[i].number == number {
            return Some(slots[i].value);
        }
    }
    None
}

/// Whether every field numbered in `varints` holds a varint and every field
/// numbered in `bytes` holds bytes.
pub fn check_types(
    slots: &Vec<FieldSlot>,
    varints: &[u64],
    bytes: &[u64],
    Ghost(s): Ghost<Seq<u8>>,
    Ghost(fs): Ghost<Seq<WireField>>,
) -> (r: bool)
    requires
        slots_match(s, slots@, fs),
    ensures
        r == fields_typed(fs, varints@, bytes@),
{
    let mut i: usize = 0;
    while i < slots.len()
        invariant
            i <= slots@.len(),
            slots_match(s, slots@, fs),
            fields_typed(fs.take(i as int), varints@, bytes@),
        decreases slots@.len() - i,
    {
        let slot = slots[i];
        let is_varint = match slot.value {
            SlotValue::Varint(_) => true,
            _ => false,
        };
        let is_bytes = match slot.value {
            SlotValue::Bytes(_, _) => true,
            _ => false,
        };
        if (contains(varints, slot.number) && !is_varint) || (contains(bytes, slot.number)
            && !is_bytes) {
            assert(!fields_typed(fs, varints@, bytes@)) by {
                assert(fs[i as int].number == slot.number);
            }
            return false;
        }
        assert(fields_typed(fs.take(i + 1), varints@, bytes@)) by {
            assert forall|j: int| 0 <= j < i + 1 implies (varints@.contains(
                #[trigger] fs.take(i + 1)[j].number,
            ) ==> fs.take(i + 1)[j].value is Varint) && (bytes@.contains(fs.take(i + 1)[j].number)
                ==> fs.take(i + 1)[j].value is Bytes) by {
                if j < i {
                    assert(fs.take(i + 1)[j] == fs.take(i as int)[j]);
                }
            }
        }
        i = i + 1;
    }
    assert(fs.take(i as int) =~= fs);
    true
}

fn contains(xs: &[u64], x: u64) -> (r: bool)
    ensures
        r == xs@.contains(x),
{
    let mut i: usize = 0;
    while i < xs.len()
        invariant
            i <= xs@.len(),
            forall|j: int| 0 <= j < i ==> xs@[j] != x,
        decreases xs@.len() - i,
    {
        if xs[i] == x {
            assert(xs@[i as int] == x);
            return true;
        }
        i = i + 1;
    }
    false
}

/// The bytes `s[a..b]`, copied.
pub fn copy_range(s: &[u8], a: usize, b: usize) -> (r: Vec<u8>)
    requires
        a <= b <= s@.len(),
    ensures
        r@ == s@.subrange(a as int, b as int),
{
    let mut out: Vec<u8> = Vec::new();
    let mut i = a;
    while i < b
        invariant
            a <= i <= b <= s@.len(),
            out@ == s@.subrange(a as int, i as int),
        decreases b - i,
    {
        out.push(s[i]);
        i = i + 1;
        assert(out@ =~= s@.subrange(a as int, i as int));
    }
    out
}

/// In a well-typed list, the last field of a number that is declared a varint
/// holds a varint, and one declared bytes holds bytes.
pub proof fn lemma_last_value_typed(
    fs: Seq<WireField>,
    varints: Seq<u64>,
    bytes: Seq<u64>,
    number: u64,
)
    requires
        fields_typed(fs, varints, bytes),
    ensures
        varints.contains(number) ==> (last_value(fs, number) matches Some(v) ==> v is Varint),
        bytes.contains(number) ==> (last_value(fs, number) matches Some(v) ==> v is Bytes),
    decreases fs.len(),
{
    if fs.len() > 0 {
        assert(fs.last() == fs[fs.len() - 1]);
        if fs.last().number != number {
            assert(fields_typed(fs.drop_last(), varints, bytes)) by {
                assert forall|i: int| 0 <= i < fs.drop_last().len() implies (varints.contains(
                    #[trigger] fs.drop_last()[i].number,
                ) ==> fs.drop_last()[i].value is Varint) && (bytes.contains(
                    fs.drop_last()[i].number,
                ) ==> fs.drop_last()[i].value is Bytes) by {
                    assert(fs.drop_last()[i] == fs[i]);
                }
            }
            lemma_last_value_typed(fs.drop_last(), varints, bytes, number);
        }
    }
}

/// The 32-bit field `number`, if present.
pub fn find_u32(
    slots: &Vec<FieldSlot>,
    number: u64,
    Ghost(s): Ghost<Seq<u8>>,
    Ghost(fs): Ghost<Seq<WireField>>,
    Ghost(varints): Ghost<Seq<u64>>,
    Ghost(bytes): Ghost<Seq<u64>>,
) -> (r: Option<u32>)
    requires
        slots_match(s, slots@, fs),
        fields_typed(fs, varints, bytes),
        varints.contains(number),
    ensures
        r == as_u32(last_value(fs, number)),
{
    proof {
        lemma_last_value_typed(fs, varints, bytes, number);
    }
    match find_last(slots, number, Ghost(s), Ghost(fs)) {
        Some(SlotValue::Varint(x)) => Some(low_u32(x)),
        _ => None,
    }
}

/// The bytes field `number`, copied, if present.
pub fn find_bytes(
    value: &[u8],
    slots: &Vec<FieldSlot>,
    number: u64,
    Ghost(fs): Ghost<Seq<WireField>>,
    Ghost(varints): Ghost<Seq<u64>>,
    Ghost(bytes): Ghost<Seq<u64>>,
) -> (r: Option<Vec<u8>>)
    requires
        slots_match(value@, slots@, fs),
        fields_typed(fs, varints, bytes),
        bytes.contains(number),
    ensures
        match as_bytes(last_value(fs, number)) {
            None => r is None,
            Some(b) => r is Some && r.unwrap()@ == b,
        },
{
    proof {
        lemma_last_value_typed(fs, varints, bytes, number);
    }
    match find_last(slots, number, Ghost(value@), Ghost(fs)) {
        Some(SlotValue::Bytes(a, b)) => Some(copy_range(value, a, b)),
        _ => None,
    }
}

/// Appends `b` to `out`.
pub fn put_raw(out: &mut Vec<u8>, b: &[u8])
    ensures
        final(out)@ == old(out)@ + b@,
{
    let ghost before = out@;
    let mut i: usize = 0;
    while i < b.len()
        invariant
            i <= b@.len(),
            out@ == before + b@.subrange(0, i as int),
        decreases b@.len() - i,
    {
        out.push(b[i]);
        i = i + 1;
        assert(out@ =~= before + b@.subrange(0, i as int));
    }
    assert(b@.subrange(0, b@.len() as int) =~= b@);
}

/// Low 32 bits of a varint field.
pub fn low_u32(x: u64) -> (r: u32)
    ensures
        r == (x % 0x1_0000_0000) as u32,
{
    (x % 0x1_0000_0000) as u32
}

} // verus!
