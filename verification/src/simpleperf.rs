use vstd::prelude::*;

use crate::buf;
use crate::endian::{int_value, read_u32, read_u64, Endianness};
use crate::error::{Error, ReadError};
use crate::strings;
use crate::thread_map::up_to_nul;

verus! {

/// Constants used in the `dso_type` property of a [`SimpleperfFileRecord`].
pub const DSO_KERNEL: u32 = 0;

pub const DSO_KERNEL_MODULE: u32 = 1;

pub const DSO_ELF_FILE: u32 = 2;

/// For files containing dex files, like .vdex files.
pub const DSO_DEX_FILE: u32 = 3;

pub const DSO_SYMBOL_MAP_FILE: u32 = 4;

pub const DSO_UNKNOWN_FILE: u32 = 5;

/// One event type of a simpleperf capture, from the meta info section.
pub struct SimplePerfEventType {
    pub name: String,
    pub type_: u64,
    pub config: u64,
}

impl SimplePerfEventType {
    /// Bundles a name with the type and config values that identify the event.
    pub fn new(name: String, type_: u64, config: u64) -> (r: Self)
        ensures
            r.name@ == name@,
            r.type_ == type_,
            r.config == config,
    {
        Self { name, type_, config }
    }
}

/// The pieces of `s` between its NUL bytes. Like the input itself, the
/// last piece is not NUL-terminated.
pub open spec fn split_nul(s: Seq<u8>) -> Seq<Seq<u8>>
    decreases s.len(),
    via split_nul_decreases
{
    let head = up_to_nul(s);
    if head.len() == s.len() {
        seq![head]
    } else {
        seq![head] + split_nul(s.skip(head.len() as int + 1))
    }
}

#[via_fn]
proof fn split_nul_decreases(s: Seq<u8>) {
    lemma_up_to_nul_len(s);
}

/// `up_to_nul` never exceeds its input, and equals it exactly when the input
/// holds no NUL byte.
proof fn lemma_up_to_nul_len(s: Seq<u8>)
    ensures
        up_to_nul(s).len() <= s.len(),
        up_to_nul(s).len() == s.len() ==> forall|j: int| 0 <= j < s.len() ==> s[j] != 0u8,
        up_to_nul(s).len() < s.len() ==> s[up_to_nul(s).len() as int] == 0u8,
        forall|j: int| 0 <= j < up_to_nul(s).len() ==> s[j] != 0u8,
    decreases s.len(),
{
    if s.len() > 0 && s[0] != 0u8 {
        lemma_up_to_nul_len(s.drop_first());
        assert forall|j: int| 0 <= j < up_to_nul(s).len() implies s[j] != 0u8 by {
            if j > 0 {
                assert(s.drop_first()[j - 1] != 0u8);
            }
        }
    }
}

/// Parse a NUL-separated list of alternating keys and values into a list of
/// string pairs, in file order.
///
/// Every piece must be valid UTF-8; a key without a following value is
/// dropped, since it has nothing to pair with.
pub fn parse_meta_info_map(bytes: &[u8]) -> (r: Result<Vec<(String, String)>, Error>)
    ensures
        r is Ok <==> forall|i: int|
            0 <= i < 2 * (split_nul(bytes@).len() / 2) ==> strings::utf8_valid(
                #[trigger] split_nul(bytes@)[i],
            ),
        r is Ok ==> r->Ok_0@.len() == split_nul(bytes@).len() / 2,
        r is Ok ==> forall|i: int|
            0 <= i < r->Ok_0@.len() ==> (#[trigger] r->Ok_0@[i]).0@ == strings::utf8_chars(
                split_nul(bytes@)[2 * i],
            ) && r->Ok_0@[i].1@ == strings::utf8_chars(split_nul(bytes@)[2 * i + 1]),
        r is Err ==> r->Err_0 == Error::StringUtf8,
{
    let mut pieces: Vec<Vec<u8>> = Vec::new();
    let mut pos: usize = 0;
    let n = bytes.len();
    let ghost whole = split_nul(bytes@);
    proof {
        assert(bytes@.skip(0) =~= bytes@);
    }
    loop
        invariant_except_break
            pieces@.len() < whole.len(),
            whole =~= pieces@.map_values(|p: Vec<u8>| p@) + split_nul(bytes@.skip(pos as int)),
        invariant
            pos <= n,
            n == bytes@.len(),
            whole == split_nul(bytes@),
        ensures
            pieces@.map_values(|p: Vec<u8>| p@) =~= whole,
        decreases n - pos,
    {
        let rest = &bytes[pos..n];
        let head_end: usize = match strings::find_byte(0, rest) {
            Some(i) => i,
            None => rest.len(),
        };
        proof {
            crate::thread_map::lemma_up_to_nul_split(rest@, head_end as int);
        }
        let piece = buf::copy_range(rest, 0, head_end);
        proof {
            assert(piece@ =~= up_to_nul(rest@));
        }
        pieces.push(piece);
        if head_end == rest.len() {
            proof {
                assert(rest@ =~= bytes@.skip(pos as int));
                assert(up_to_nul(rest@) =~= rest@);
                assert(split_nul(rest@) =~= seq![up_to_nul(rest@)]);
                assert(pieces@.map_values(|p: Vec<u8>| p@) =~= whole);
            }
            break ;
        }
        pos = pos + head_end + 1;
        proof {
            assert(rest@ =~= bytes@.skip((pos - head_end - 1) as int));
            assert(bytes@.skip(pos as int) =~= rest@.skip(head_end + 1));
            assert(split_nul(rest@) =~= seq![up_to_nul(rest@)] + split_nul(
                rest@.skip(head_end + 1),
            ));
            lemma_split_nul_nonempty(bytes@.skip(pos as int));
        }
    }
    // Pair up keys and values.
    let mut map: Vec<(String, String)> = Vec::new();
    let mut i: usize = 0;
    let total = pieces.len();
    while total - i >= 2
        invariant
            total == pieces@.len(),
            whole == split_nul(bytes@),
            pieces@.map_values(|p: Vec<u8>| p@) == whole,
            map@.len() * 2 == i,
            i <= total,
            forall|k: int| 0 <= k < i ==> strings::utf8_valid(#[trigger] whole[k]),
            forall|k: int|
                0 <= k < map@.len() ==> (#[trigger] map@[k]).0@ == strings::utf8_chars(
                    whole[2 * k],
                ) && map@[k].1@ == strings::utf8_chars(whole[2 * k + 1]),
        decreases total - i,
    {
        proof {
            // Both pieces of this pair lie below the paired cutoff.
            assert(i + 1 < 2 * (whole.len() / 2)) by (nonlinear_arith)
                requires
                    i == 2 * map@.len(),
                    i + 2 <= whole.len(),
            ;
        }
        let key = match strings::utf8_string(pieces[i].as_slice()) {
            Some(s) => s,
            None => {
                proof {
                    assert(whole[i as int] == pieces@.map_values(|p: Vec<u8>| p@)[i as int]);
                }
                return Err(Error::StringUtf8);
            }
        };
        let value = match strings::utf8_string(pieces[i + 1].as_slice()) {
            Some(s) => s,
            None => {
                proof {
                    assert(whole[i + 1] == pieces@.map_values(|p: Vec<u8>| p@)[i + 1]);
                }
                return Err(Error::StringUtf8);
            }
        };
        map.push((key, value));
        i = i + 2;
    }
    proof {
        assert(map@.len() == whole.len() / 2);
        assert forall|k: int| 0 <= k < 2 * (whole.len() / 2) implies strings::utf8_valid(
            #[trigger] whole[k],
        ) by {
            assert(k < i);
        }
    }
    Ok(map)
}

/// `split_nul` always yields at least one piece.
proof fn lemma_split_nul_nonempty(s: Seq<u8>)
    ensures
        split_nul(s).len() >= 1,
{
}

/// The prefix of `s` before the first `sep` byte, or all of `s` when it
/// holds none.
pub open spec fn up_to_sep(sep: u8, s: Seq<u8>) -> Seq<u8>
    decreases s.len(),
{
    if s.len() == 0 {
        s
    } else if s[0] == sep {
        Seq::empty()
    } else {
        seq![s[0]] + up_to_sep(sep, s.drop_first())
    }
}

/// The prefix before the first `sep` is the bytes up to its position.
proof fn lemma_up_to_sep_split(sep: u8, s: Seq<u8>, end: int)
    requires
        0 <= end <= s.len(),
        forall|j: int| 0 <= j < end ==> s[j] != sep,
        end < s.len() ==> s[end] == sep,
    ensures
        up_to_sep(sep, s) == s.subrange(0, end),
    decreases s.len(),
{
    if s.len() == 0 || s[0] == sep {
        assert(up_to_sep(sep, s) =~= s.subrange(0, end));
    } else {
        lemma_up_to_sep_split(sep, s.drop_first(), end - 1);
        assert(seq![s[0]] + up_to_sep(sep, s.drop_first()) =~= s.subrange(0, end));
    }
}

/// The bytes of the key that names the event type list in the meta info map.
pub open spec fn event_type_info_key() -> Seq<u8> {
    seq![101u8, 118u8, 101u8, 110u8, 116u8, 95u8, 116u8, 121u8, 112u8, 101u8, 95u8, 105u8, 110u8,
        102u8, 111u8]
}

/// The value of the last meta-info entry whose key spells out the event type
/// list's name.
pub open spec fn spec_event_type_value(map: Seq<(String, String)>) -> Option<Seq<char>>
    decreases map.len(),
{
    if map.len() == 0 {
        None
    } else if vstd::utf8::encode_utf8(map.last().0@) == event_type_info_key() {
        Some(map.last().1@)
    } else {
        spec_event_type_value(map.drop_last())
    }
}

/// One `name,type,config` line: the name must be valid UTF-8 and the two
/// numbers must be decimal and fit a `u64`.
pub open spec fn spec_event_type_triple(line: Seq<u8>) -> Option<(Seq<char>, nat, nat)> {
    let name = up_to_sep(44, line);
    if name.len() == line.len() {
        None
    } else {
        let rest = line.skip(name.len() as int + 1);
        let tyb = up_to_sep(44, rest);
        if tyb.len() == rest.len() {
            None
        } else {
            let cfb = rest.skip(tyb.len() as int + 1);
            if strings::utf8_valid(name) && tyb.len() > 0 && all_digits(tyb)
                && spec_decimal_value(tyb) <= u64::MAX && cfb.len() > 0 && all_digits(cfb)
                && spec_decimal_value(cfb) <= u64::MAX {
                Some((strings::utf8_chars(name), spec_decimal_value(tyb), spec_decimal_value(cfb)))
            } else {
                None
            }
        }
    }
}

/// The triples on the newline-separated lines of `bytes`, from `pos` on;
/// `None` when some line is not a well-formed triple.
pub open spec fn spec_event_type_lines(bytes: Seq<u8>, pos: int) -> Option<
    Seq<(Seq<char>, nat, nat)>,
>
    decreases bytes.len() - pos,
    via spec_event_type_lines_decreases
{
    if pos < 0 || pos > bytes.len() {
        None
    } else {
        let line = up_to_sep(10, bytes.skip(pos));
        match spec_event_type_triple(line) {
            Some(t) => {
                if pos + line.len() == bytes.len() {
                    Some(seq![t])
                } else {
                    match spec_event_type_lines(bytes, pos + line.len() + 1) {
                        Some(rest) => Some(seq![t] + rest),
                        None => None,
                    }
                }
            }
            None => None,
        }
    }
}

#[via_fn]
proof fn spec_event_type_lines_decreases(bytes: Seq<u8>, pos: int) {
    if 0 <= pos <= bytes.len() {
        lemma_up_to_sep_len(10, bytes.skip(pos));
    }
}

/// `up_to_sep` never exceeds its input.
proof fn lemma_up_to_sep_len(sep: u8, s: Seq<u8>)
    ensures
        up_to_sep(sep, s).len() <= s.len(),
    decreases s.len(),
{
    if s.len() > 0 && s[0] != sep {
        lemma_up_to_sep_len(sep, s.drop_first());
    }
}

/// The event types listed in the `event_type_info` value of the meta info
/// map: `name,type,config` triples on newline-separated lines, in line
/// order. `None` when the key is missing or some line is malformed.
pub fn get_event_types(meta_info_map: &Vec<(String, String)>) -> (r: Option<
    Vec<SimplePerfEventType>,
>)
    ensures
        r is Some <==> (spec_event_type_value(meta_info_map@) is Some && spec_event_type_lines(
            vstd::utf8::encode_utf8(spec_event_type_value(meta_info_map@)->0),
            0,
        ) is Some),
        r is Some ==> ({
            let triples = spec_event_type_lines(
                vstd::utf8::encode_utf8(spec_event_type_value(meta_info_map@)->0),
                0,
            )->0;
            &&& r->0@.len() == triples.len()
            &&& forall|i: int|
                0 <= i < triples.len() ==> (#[trigger] r->0@[i]).name@ == triples[i].0 && r->0@[
                i].type_ == triples[i].1 && r->0@[i].config == triples[i].2
        }),
{
    let ghost whole_map = meta_info_map@;
    let mut value: Option<&String> = None;
    let mut i: usize = 0;
    while i < meta_info_map.len()
        invariant
            i <= meta_info_map@.len(),
            whole_map == meta_info_map@,
            match value {
                Some(v) => spec_event_type_value(whole_map.take(i as int)) == Some(v@),
                None => spec_event_type_value(whole_map.take(i as int)) is None,
            },
        decreases meta_info_map@.len() - i,
    {
        let key_bytes = meta_info_map[i].0.as_str().as_bytes();
        let expected: Vec<u8> = vec![
            101u8,
            118u8,
            101u8,
            110u8,
            116u8,
            95u8,
            116u8,
            121u8,
            112u8,
            101u8,
            95u8,
            105u8,
            110u8,
            102u8,
            111u8,
        ];
        proof {
            assert(expected@ =~= event_type_info_key());
            assert(whole_map.take(i + 1).drop_last() =~= whole_map.take(i as int));
        }
        if buf::bytes_equal(key_bytes, expected.as_slice()) {
            value = Some(&meta_info_map[i].1);
        }
        i = i + 1;
    }
    proof {
        assert(whole_map.take(whole_map.len() as int) =~= whole_map);
    }
    let value = match value {
        Some(v) => v,
        None => {
            return None;
        }
    };
    let bytes = value.as_str().as_bytes();
    let ghost vb = bytes@;
    let mut event_types: Vec<SimplePerfEventType> = Vec::new();
    let mut pos: usize = 0;
    let n = bytes.len();
    let ghost collected: Seq<(Seq<char>, nat, nat)> = Seq::empty();
    let mut triples_track: Ghost<Seq<(Seq<char>, nat, nat)>> = Ghost(collected);
    proof {
        assert(vb.skip(0) =~= vb);
    }
    loop
        invariant_except_break
            spec_event_type_lines(vb, 0) == (match spec_event_type_lines(vb, pos as int) {
                Some(rest) => Some(triples_track@ + rest),
                None => None,
            }),
        invariant
            pos <= n,
            n == bytes@.len(),
            vb == bytes@,
            vb == vstd::utf8::encode_utf8(spec_event_type_value(whole_map)->0),
            spec_event_type_value(whole_map) is Some,
            whole_map == meta_info_map@,
            event_types@.len() == triples_track@.len(),
            forall|k: int|
                0 <= k < triples_track@.len() ==> (#[trigger] event_types@[k]).name@
                    == triples_track@[k].0 && event_types@[k].type_ == triples_track@[k].1
                    && event_types@[k].config == triples_track@[k].2,
        ensures
            pos <= n,
            vb == bytes@,
            whole_map == meta_info_map@,
            spec_event_type_lines(vb, 0) == Some(triples_track@),
            event_types@.len() == triples_track@.len(),
            forall|k: int|
                0 <= k < triples_track@.len() ==> (#[trigger] event_types@[k]).name@
                    == triples_track@[k].0 && event_types@[k].type_ == triples_track@[k].1
                    && event_types@[k].config == triples_track@[k].2,
        decreases n - pos,
    {
        let rest = &bytes[pos..n];
        let line_end: usize = match strings::find_byte(10, rest) {
            Some(i) => i,
            None => rest.len(),
        };
        proof {
            lemma_up_to_sep_split(10, rest@, line_end as int);
        }
        let line = &rest[0..line_end];
        proof {
            assert(line@ =~= up_to_sep(10, vb.skip(pos as int)));
        }
        match parse_event_type_line(line) {
            Some(t) => {
                let ghost triple = spec_event_type_triple(line@)->0;
                proof {
                    triples_track@ = triples_track@.push(triple);
                }
                event_types.push(t);
            }
            None => {
                proof {
                    assert(spec_event_type_lines(vb, pos as int) is None);
                }
                return None;
            }
        }
        if line_end == rest.len() {
            proof {
                assert(pos + up_to_sep(10, vb.skip(pos as int)).len() == vb.len());
                assert(spec_event_type_lines(vb, pos as int) == Some(
                    seq![triples_track@.last()],
                ));
                assert(triples_track@.drop_last() + seq![triples_track@.last()]
                    =~= triples_track@);
            }
            break ;
        }
        proof {
            let rest_lines = spec_event_type_lines(vb, pos + line_end + 1);
            assert(spec_event_type_lines(vb, pos as int) == (match rest_lines {
                Some(rl) => Some(seq![triples_track@.last()] + rl),
                None => None,
            }));
            if rest_lines is Some {
                assert(triples_track@.drop_last() + (seq![triples_track@.last()]
                    + rest_lines->0) =~= triples_track@ + rest_lines->0);
            }
        }
        pos = pos + line_end + 1;
    }
    Some(event_types)
}

/// One `name,type,config` line of the `event_type_info` value.
fn parse_event_type_line(line: &[u8]) -> (r: Option<SimplePerfEventType>)
    ensures
        r is Some <==> spec_event_type_triple(line@) is Some,
        r is Some ==> ({
            let t = spec_event_type_triple(line@)->0;
            r->0.name@ == t.0 && r->0.type_ == t.1 && r->0.config == t.2
        }),
{
    let first_comma = match strings::find_byte(44, line) {
        Some(i) => i,
        None => {
            proof {
                lemma_up_to_sep_split(44, line@, line@.len() as int);
            }
            return None;
        }
    };
    proof {
        lemma_up_to_sep_split(44, line@, first_comma as int);
    }
    let ll = line.len();
    let name_bytes = &line[0..first_comma];
    let rest = &line[first_comma + 1..ll];
    proof {
        assert(name_bytes@ =~= up_to_sep(44, line@));
        assert(rest@ =~= line@.skip(first_comma + 1));
    }
    let second_comma = match strings::find_byte(44, rest) {
        Some(i) => i,
        None => {
            proof {
                lemma_up_to_sep_split(44, rest@, rest@.len() as int);
            }
            return None;
        }
    };
    proof {
        lemma_up_to_sep_split(44, rest@, second_comma as int);
    }
    let rl = rest.len();
    let type_bytes = &rest[0..second_comma];
    let config_bytes = &rest[second_comma + 1..rl];
    proof {
        assert(type_bytes@ =~= up_to_sep(44, rest@));
        assert(config_bytes@ =~= rest@.skip(second_comma + 1));
    }
    let name = match strings::utf8_string(name_bytes) {
        Some(s) => s,
        None => {
            return None;
        }
    };
    let type_ = match parse_u64_decimal(type_bytes) {
        Some(v) => v,
        None => {
            return None;
        }
    };
    let config = match parse_u64_decimal(config_bytes) {
        Some(v) => v,
        None => {
            return None;
        }
    };
    Some(SimplePerfEventType::new(name, type_, config))
}

/// The value of a sequence of decimal digits.
pub open spec fn spec_decimal_value(s: Seq<u8>) -> nat
    decreases s.len(),
{
    if s.len() == 0 {
        0
    } else {
        (spec_decimal_value(s.drop_last()) * 10 + (s.last() - 48)) as nat
    }
}

/// All bytes are decimal digits.
pub open spec fn all_digits(s: Seq<u8>) -> bool {
    forall|j: int| 0 <= j < s.len() ==> 48 <= #[trigger] s[j] <= 57
}

/// Reads a non-empty sequence of decimal digits as a `u64`; `None` on a
/// non-digit, an empty input, or overflow.
pub fn parse_u64_decimal(s: &[u8]) -> (r: Option<u64>)
    ensures
        r is Some ==> s@.len() > 0 && all_digits(s@) && r->0 == spec_decimal_value(s@),
        (s@.len() > 0 && all_digits(s@) && spec_decimal_value(s@) <= u64::MAX) ==> r is Some,
{
    if s.len() == 0 {
        return None;
    }
    let mut value: u64 = 0;
    let mut i: usize = 0;
    let n = s.len();
    while i < n
        invariant
            i <= n,
            n == s@.len(),
            all_digits(s@.take(i as int)),
            value == spec_decimal_value(s@.take(i as int)),
        decreases n - i,
    {
        let b = s[i];
        if b < 48 || b > 57 {
            return None;
        }
        if value > (u64::MAX - (b - 48) as u64) / 10 {
            proof {
                lemma_decimal_monotone(s@, i as int);
                assert(spec_decimal_value(s@.take(i + 1)) > u64::MAX) by (nonlinear_arith)
                    requires
                        spec_decimal_value(s@.take(i + 1)) == spec_decimal_value(
                            s@.take(i as int),
                        ) * 10 + (s@[i as int] - 48),
                        spec_decimal_value(s@.take(i as int)) > (u64::MAX - (s@[i as int]
                            - 48)) / 10,
                        48 <= s@[i as int] <= 57,
                ;
            }
            return None;
        }
        proof {
            assert(s@.take(i + 1).drop_last() =~= s@.take(i as int));
        }
        value = value * 10 + (b - 48) as u64;
        i = i + 1;
        proof {
            assert(all_digits(s@.take(i as int)));
        }
    }
    proof {
        assert(s@.take(n as int) =~= s@);
    }
    Some(value)
}

/// A longer digit string never has a smaller value, so overflow at any point
/// is final.
proof fn lemma_decimal_monotone(s: Seq<u8>, i: int)
    requires
        0 <= i < s.len(),
    ensures
        s[i] >= 48 ==> spec_decimal_value(s.take(i + 1)) == spec_decimal_value(s.take(i)) * 10 + (
        s[i] - 48),
        spec_decimal_value(s) >= spec_decimal_value(s.take(i + 1)) || !all_digits(s),
    decreases s.len() - i,
{
    assert(s.take(i + 1).drop_last() =~= s.take(i));
    assert(s.take(i + 1).last() == s[i]);
    if i + 1 < s.len() {
        lemma_decimal_monotone(s, i + 1);
        if all_digits(s) {
            assert(spec_decimal_value(s.take(i + 2)) == spec_decimal_value(s.take(i + 1)) * 10 + (
            s[i + 1] - 48));
            assert(spec_decimal_value(s.take(i + 1)) * 10 + (s[i + 1] - 48) >= spec_decimal_value(
                s.take(i + 1),
            )) by (nonlinear_arith)
                requires
                    48 <= s[i + 1] <= 57,
                    spec_decimal_value(s.take(i + 1)) >= 0,
            ;
        }
    } else {
        assert(s.take(i + 1) =~= s);
    }
}


/// Used in the SIMPLEPERF_FILE and SIMPLEPERF_FILE2 sections: the symbol
/// table of one file, as captured on the device.
#[derive(Debug, Clone, PartialEq, Eq)]
pub struct SimpleperfFileRecord {
    pub path: String,
    /// One of the `DSO_*` constants.
    pub dso_type: u32,
    pub min_vaddr: u64,
    pub symbol: Vec<SimpleperfSymbol>,
    pub type_specific_msg: Option<SimpleperfTypeSpecificInfo>,
}

/// A single symbol of the symbol table inside a [`SimpleperfFileRecord`].
#[derive(Debug, Clone, PartialEq, Eq)]
pub struct SimpleperfSymbol {
    pub vaddr: u64,
    pub len: u32,
    pub name: String,
}

/// DEX-specific info inside a [`SimpleperfFileRecord`].
#[derive(Debug, Clone, PartialEq, Eq)]
pub struct SimpleperfDexFileInfo {
    pub dex_file_offset: Vec<u64>,
}

/// ELF object specific info inside a [`SimpleperfFileRecord`].
#[derive(Debug, Clone, Copy, PartialEq, Eq, Structural)]
pub struct SimpleperfElfFileInfo {
    pub file_offset_of_min_vaddr: u64,
}

/// Kernel module specific info inside a [`SimpleperfFileRecord`].
#[derive(Debug, Clone, Copy, PartialEq, Eq, Structural)]
pub struct SimpleperfKernelModuleInfo {
    pub memory_offset_of_min_vaddr: u64,
}

/// Type-specific info inside a [`SimpleperfFileRecord`].
#[derive(Debug, Clone, PartialEq, Eq)]
pub enum SimpleperfTypeSpecificInfo {
    /// Only when the type is DSO_DEX_FILE.
    DexFile(SimpleperfDexFileInfo),
    /// Only when the type is DSO_ELF_FILE.
    ElfFile(SimpleperfElfFileInfo),
    /// Only when the type is DSO_KERNEL_MODULE.
    KernelModule(SimpleperfKernelModuleInfo),
}

impl SimpleperfFileRecord {
    /// Reads one record of the legacy SIMPLEPERF_FILE section: a
    /// NUL-terminated path, the type, the lowest mapped address, the symbol
    /// table, and a type-specific tail.
    pub fn decode_v1(data: &[u8], e: Endianness) -> (r: Result<SimpleperfFileRecord, Error>)
        ensures
            r is Ok ==> ({
                let plen = up_to_nul(data@).len() as int;
                let v = r->Ok_0;
                &&& plen < data@.len()
                &&& strings::utf8_valid(up_to_nul(data@))
                &&& v.path@ == strings::utf8_chars(up_to_nul(data@))
                &&& v.dso_type == int_value(data@.subrange(plen + 1, plen + 5), e)
                &&& v.dso_type <= DSO_UNKNOWN_FILE
                &&& v.min_vaddr == int_value(data@.subrange(plen + 5, plen + 13), e)
                &&& v.symbol@.len() == int_value(data@.subrange(plen + 13, plen + 17), e)
            }),
    {
        let dlen = data.len();
        let path_len: usize = match strings::find_byte(0, data) {
            Some(i) => i,
            None => {
                return Err(Error::Truncated);
            }
        };
        proof {
            crate::thread_map::lemma_up_to_nul_split(data@, path_len as int);
            assert(data@.subrange(0, path_len as int) =~= up_to_nul(data@));
        }
        let path = match strings::utf8_string(&data[0..path_len]) {
            Some(s) => s,
            None => {
                return Err(Error::StringUtf8);
            }
        };
        let mut pos: usize = path_len + 1;
        if dlen - pos < 16 {
            return Err(Error::Truncated);
        }
        let file_type = read_u32(data, pos, e);
        if file_type > DSO_UNKNOWN_FILE {
            return Err(Error::ParsingSimpleperfFileV1Section(ReadError::PerfEventData));
        }
        let min_vaddr = read_u64(data, pos + 4, e);
        let symbol_count = read_u32(data, pos + 12, e) as usize;
        pos = pos + 16;
        if symbol_count > dlen - pos {
            // More symbols than remaining bytes: the count cannot be real.
            return Err(Error::ParsingSimpleperfFileV1Section(ReadError::PerfEventData));
        }
        let mut symbols: Vec<SimpleperfSymbol> = Vec::new();
        let mut k: usize = 0;
        while k < symbol_count
            invariant
                k <= symbol_count,
                symbols@.len() == k as int,
                dlen == data@.len(),
                pos <= dlen,
            decreases symbol_count - k,
        {
            if dlen - pos < 12 {
                return Err(Error::Truncated);
            }
            let vaddr = read_u64(data, pos, e);
            let len = read_u32(data, pos + 8, e);
            let rest = &data[pos + 12..dlen];
            let name_len: usize = match strings::find_byte(0, rest) {
                Some(i) => i,
                None => {
                    return Err(Error::Truncated);
                }
            };
            let name = match strings::utf8_string(&rest[0..name_len]) {
                Some(s) => s,
                None => {
                    return Err(Error::StringUtf8);
                }
            };
            pos = pos + 12 + name_len + 1;
            symbols.push(SimpleperfSymbol { vaddr, len, name });
            k = k + 1;
        }
        let type_specific_msg: Option<SimpleperfTypeSpecificInfo>;
        if file_type == DSO_DEX_FILE {
            if dlen - pos < 4 {
                return Err(Error::Truncated);
            }
            let offset_count = read_u32(data, pos, e) as usize;
            pos = pos + 4;
            if offset_count > (dlen - pos) / 8 {
                return Err(Error::ParsingSimpleperfFileV1Section(ReadError::PerfEventData));
            }
            proof {
                assert(pos + 8 * offset_count <= dlen) by (nonlinear_arith)
                    requires
                        offset_count <= (dlen - pos) as int / 8,
                        0 <= pos <= dlen,
                ;
            }
            let mut dex_file_offset: Vec<u64> = Vec::new();
            let mut j: usize = 0;
            while j < offset_count
                invariant
                    j <= offset_count,
                    dlen == data@.len(),
                    pos + 8 * (offset_count - j) <= dlen,
                decreases offset_count - j,
            {
                dex_file_offset.push(read_u64(data, pos, e));
                pos = pos + 8;
                j = j + 1;
            }
            type_specific_msg = Some(
                SimpleperfTypeSpecificInfo::DexFile(SimpleperfDexFileInfo { dex_file_offset }),
            );
        } else if file_type == DSO_ELF_FILE {
            let file_offset_of_min_vaddr: u64;
            if dlen == pos {
                file_offset_of_min_vaddr = u64::MAX;
            } else {
                if dlen - pos < 8 {
                    return Err(Error::Truncated);
                }
                file_offset_of_min_vaddr = read_u64(data, pos, e);
            }
            type_specific_msg = Some(
                SimpleperfTypeSpecificInfo::ElfFile(
                    SimpleperfElfFileInfo { file_offset_of_min_vaddr },
                ),
            );
        } else if file_type == DSO_KERNEL_MODULE {
            let memory_offset_of_min_vaddr: u64;
            if dlen == pos {
                memory_offset_of_min_vaddr = u64::MAX;
            } else {
                if dlen - pos < 8 {
                    return Err(Error::Truncated);
                }
                memory_offset_of_min_vaddr = read_u64(data, pos, e);
            }
            type_specific_msg = Some(
                SimpleperfTypeSpecificInfo::KernelModule(
                    SimpleperfKernelModuleInfo { memory_offset_of_min_vaddr },
                ),
            );
        } else {
            type_specific_msg = None;
        }
        Ok(
            SimpleperfFileRecord {
                path,
                dso_type: file_type,
                min_vaddr,
                symbol: symbols,
                type_specific_msg,
            },
        )
    }
}

/// The length-prefixed frames of a SIMPLEPERF_FILE or SIMPLEPERF_FILE2
/// section, from `pos` on: each frame is a `u32` length followed by that
/// many bytes. `None` when a length overruns the section.
pub open spec fn spec_file_frames(data: Seq<u8>, pos: int, e: Endianness) -> Option<Seq<Seq<u8>>>
    decreases data.len() - pos,
{
    if pos < 0 || pos > data.len() {
        None
    } else if pos == data.len() {
        Some(Seq::empty())
    } else if data.len() - pos < 4 {
        None
    } else {
        let flen = int_value(data.subrange(pos, pos + 4), e);
        if pos + 4 + flen > data.len() {
            None
        } else {
            match spec_file_frames(data, pos + 4 + flen, e) {
                Some(rest) => Some(seq![data.subrange(pos + 4, pos + 4 + flen)] + rest),
                None => None,
            }
        }
    }
}

/// Splits a SIMPLEPERF_FILE or SIMPLEPERF_FILE2 section into its
/// length-prefixed entries: each is a `u32` length followed by that many
/// bytes.
pub fn split_file_section_frames(data: &[u8], e: Endianness) -> (r: Result<Vec<Vec<u8>>, Error>)
    ensures
        r is Ok <==> spec_file_frames(data@, 0, e) is Some,
        r is Ok ==> r->Ok_0@.map_values(|f: Vec<u8>| f@) == spec_file_frames(data@, 0, e)->0,
        r is Err ==> r->Err_0 == Error::FeatureSectionTooSmall,
{
    let dlen = data.len();
    let mut frames: Vec<Vec<u8>> = Vec::new();
    let mut pos: usize = 0;
    proof {
        assert(opt_prepend_frames(Seq::empty(), spec_file_frames(data@, 0, e))
            == spec_file_frames(data@, 0, e));
    }
    while pos < dlen
        invariant
            pos <= dlen,
            dlen == data@.len(),
            spec_file_frames(data@, 0, e) == opt_prepend_frames(
                frames@.map_values(|f: Vec<u8>| f@),
                spec_file_frames(data@, pos as int, e),
            ),
        decreases dlen - pos,
    {
        if dlen - pos < 4 {
            proof {
                assert(spec_file_frames(data@, pos as int, e) is None);
            }
            return Err(Error::FeatureSectionTooSmall);
        }
        let len = read_u32(data, pos, e) as usize;
        pos = pos + 4;
        if len > dlen - pos {
            proof {
                assert(spec_file_frames(data@, pos - 4, e) is None);
            }
            return Err(Error::FeatureSectionTooSmall);
        }
        let frame = buf::copy_range(data, pos, pos + len);
        pos = pos + len;
        frames.push(frame);
        proof {
            let views = frames@.map_values(|f: Vec<u8>| f@);
            assert(spec_file_frames(data@, pos - len - 4, e) == opt_prepend_frames(
                seq![frame@],
                spec_file_frames(data@, pos as int, e),
            ));
            if spec_file_frames(data@, pos as int, e) is Some {
                assert(views =~= views.drop_last().push(frame@));
                assert((views.drop_last() + (seq![frame@] + spec_file_frames(
                    data@,
                    pos as int,
                    e,
                )->0)) =~= views + spec_file_frames(data@, pos as int, e)->0);
            }
        }
    }
    proof {
        assert(spec_file_frames(data@, pos as int, e) == Some(Seq::<Seq<u8>>::empty()));
        let views = frames@.map_values(|f: Vec<u8>| f@);
        assert(views + Seq::<Seq<u8>>::empty() =~= views);
    }
    Ok(frames)
}

/// `rest` with `prefix` in front, when there is a `rest` at all.
pub open spec fn opt_prepend_frames(prefix: Seq<Seq<u8>>, rest: Option<Seq<Seq<u8>>>) -> Option<
    Seq<Seq<u8>>,
> {
    match rest {
        Some(r) => Some(prefix + r),
        None => None,
    }
}

/// Parses the legacy SIMPLEPERF_FILE section: length-prefixed records in the
/// manual layout that [`SimpleperfFileRecord::decode_v1`] reads. On-device
/// simpleperf wrote this section up to Android 12.
pub fn parse_file_section(data: &[u8], e: Endianness) -> (r: Result<Vec<SimpleperfFileRecord>, Error>)
    ensures
        r is Ok ==> spec_file_frames(data@, 0, e) is Some && r->Ok_0@.len() == spec_file_frames(
            data@,
            0,
            e,
        )->0.len(),
        r is Ok ==> forall|i: int|
            0 <= i < r->Ok_0@.len() ==> {
                let frame = spec_file_frames(data@, 0, e)->0[i];
                let plen = up_to_nul(frame).len() as int;
                &&& (#[trigger] r->Ok_0@[i]).dso_type <= DSO_UNKNOWN_FILE
                &&& r->Ok_0@[i].path@ == strings::utf8_chars(up_to_nul(frame))
                &&& r->Ok_0@[i].dso_type == int_value(frame.subrange(plen + 1, plen + 5), e)
                &&& r->Ok_0@[i].min_vaddr == int_value(frame.subrange(plen + 5, plen + 13), e)
            },
{
    let frames = match split_file_section_frames(data, e) {
        Ok(f) => f,
        Err(err) => {
            return Err(err);
        }
    };
    let mut files: Vec<SimpleperfFileRecord> = Vec::new();
    let mut i: usize = 0;
    while i < frames.len()
        invariant
            i <= frames@.len(),
            files@.len() == i as int,
            frames@.map_values(|f: Vec<u8>| f@) == spec_file_frames(data@, 0, e)->0,
            spec_file_frames(data@, 0, e) is Some,
            forall|k: int|
                0 <= k < files@.len() ==> {
                    let frame = spec_file_frames(data@, 0, e)->0[k];
                    let plen = up_to_nul(frame).len() as int;
                    &&& (#[trigger] files@[k]).dso_type <= DSO_UNKNOWN_FILE
                    &&& files@[k].path@ == strings::utf8_chars(up_to_nul(frame))
                    &&& files@[k].dso_type == int_value(frame.subrange(plen + 1, plen + 5), e)
                    &&& files@[k].min_vaddr == int_value(frame.subrange(plen + 5, plen + 13), e)
                },
        decreases frames@.len() - i,
    {
        let file = match SimpleperfFileRecord::decode_v1(frames[i].as_slice(), e) {
            Ok(f) => f,
            Err(err) => {
                return Err(err);
            }
        };
        proof {
            assert(frames@[i as int]@ == spec_file_frames(data@, 0, e)->0[i as int]);
        }
        files.push(file);
        i = i + 1;
    }
    Ok(files)
}

} // verus!
