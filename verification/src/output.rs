//! Choosing an audio output device and a stream format for it, and the device listing.
//! Devices and their supported configurations come in as plain values.

use vstd::prelude::*;
use crate::sap::{trim_end, trim_start};
use crate::text::{decimal_value, digit_value, digits_value, first_index, is_digit, lemma_first_index, string_from_chars};
use crate::sdp::chars_of;
use crate::socket::trim_chars;
use crate::stream::{decimal_text, push_chars, push_decimal};

verus! {

/// Sample formats of an output device.
#[derive(Debug, Clone, Copy, PartialEq, Eq, Structural)]
pub enum SampleFormatKind {
    I8,
    I16,
    I32,
    I64,
    U8,
    U16,
    U32,
    U64,
    F32,
    F64,
    Other,
}

/// Preference of a sample format for playout (lower is better): 32-bit float first,
/// then 16-bit integers, 64-bit float and 32-bit integers; other formats are not used.
pub open spec fn format_rank(format: SampleFormatKind) -> Option<u8> {
    match format {
        SampleFormatKind::F32 => Some(0u8),
        SampleFormatKind::I16 => Some(1u8),
        SampleFormatKind::U16 => Some(2u8),
        SampleFormatKind::F64 => Some(3u8),
        SampleFormatKind::I32 => Some(4u8),
        SampleFormatKind::U32 => Some(5u8),
        _ => None,
    }
}

/// The preference of `format` (see `format_rank`).
pub fn sample_format_rank(format: SampleFormatKind) -> (r: Option<u8>)
    ensures
        r == format_rank(format),
{
    match format {
        SampleFormatKind::F32 => Some(0),
        SampleFormatKind::I16 => Some(1),
        SampleFormatKind::U16 => Some(2),
        SampleFormatKind::F64 => Some(3),
        SampleFormatKind::I32 => Some(4),
        SampleFormatKind::U32 => Some(5),
        _ => None,
    }
}

/// One supported configuration range of a device.
#[derive(Debug, Clone, Copy, PartialEq, Eq, Structural)]
pub struct OutputConfigRange {
    pub channels: u16,
    pub min_sample_rate: u32,
    pub max_sample_rate: u32,
    pub format: SampleFormatKind,
}

/// `r` can play `channels` channels at `sample_rate` in a usable format.
pub open spec fn config_fits(r: OutputConfigRange, sample_rate: u32, channels: u16) -> bool {
    &&& r.channels == channels
    &&& r.min_sample_rate <= sample_rate <= r.max_sample_rate
    &&& format_rank(r.format).is_some()
}

/// The range chosen for a stream: the first that fits with the best format preference.
pub open spec fn chosen_config(ranges: Seq<OutputConfigRange>, sample_rate: u32, channels: u16, i: int) -> bool {
    &&& 0 <= i < ranges.len()
    &&& config_fits(ranges[i], sample_rate, channels)
    &&& forall|j: int|
        0 <= j < ranges.len() && config_fits(#[trigger] ranges[j], sample_rate, channels) ==> {
            let rj = format_rank(ranges[j].format).unwrap();
            let ri = format_rank(ranges[i].format).unwrap();
            if j < i {
                rj > ri
            } else {
                rj >= ri
            }
        }
}

/// The configuration range to open for `channels` channels at `sample_rate`: the first
/// of those that fit with the most preferred sample format, or none when none fits.
pub fn select_output_config(ranges: &Vec<OutputConfigRange>, sample_rate: u32, channels: u16) -> (r: Option<usize>)
    ensures
        match r {
            Some(i) => chosen_config(ranges@, sample_rate, channels, i as int),
            None => forall|j: int| 0 <= j < ranges@.len() ==> !config_fits(#[trigger] ranges@[j], sample_rate, channels),
        },
{
    let mut selected: Option<(usize, u8)> = None;
    let mut k: usize = 0;
    while k < ranges.len()
        invariant
            k <= ranges@.len(),
            match selected {
                Some((i, rank)) => {
                    &&& i < k
                    &&& config_fits(ranges@[i as int], sample_rate, channels)
                    &&& format_rank(ranges@[i as int].format) == Some(rank)
                    &&& forall|j: int|
                        0 <= j < k && config_fits(#[trigger] ranges@[j], sample_rate, channels) ==> {
                            let rj = format_rank(ranges@[j].format).unwrap();
                            if j < i {
                                rj > rank
                            } else {
                                rj >= rank
                            }
                        }
                },
                None => forall|j: int| 0 <= j < k ==> !config_fits(#[trigger] ranges@[j], sample_rate, channels),
            },
        decreases ranges@.len() - k,
    {
        let c = ranges[k];
        if c.channels == channels && c.min_sample_rate <= sample_rate && sample_rate <= c.max_sample_rate {
            match sample_format_rank(c.format) {
                Some(rank) => {
                    let replace = match selected {
                        Some((_, best)) => rank < best,
                        None => true,
                    };
                    if replace {
                        selected = Some((k, rank));
                    }
                },
                None => {},
            }
        }
        k = k + 1;
    }
    match selected {
        Some((i, _)) => Some(i),
        None => None,
    }
}

/// The number that `t` denotes as an unsigned machine integer: an optional `+`, then
/// decimal digits, at most `usize::MAX`.
pub open spec fn usize_text_value(t: Seq<char>) -> Option<nat> {
    let digits = if t.len() > 0 && t[0] == '+' {
        t.drop_first()
    } else {
        t
    };
    match decimal_value(digits) {
        Some(v) => if v <= usize::MAX {
            Some(v)
        } else {
            None
        },
        None => None,
    }
}

/// A run of digits is worth at least any of its prefixes.
proof fn lemma_digits_value_prefix(s: Seq<char>, k: int)
    requires
        0 <= k <= s.len(),
        forall|i: int| 0 <= i < s.len() ==> is_digit(s[i]),
    ensures
        digits_value(s.take(k)) <= digits_value(s),
    decreases s.len(),
{
    if k < s.len() {
        lemma_digits_value_prefix(s.drop_last(), k);
        assert(s.drop_last().take(k) =~= s.take(k));
    } else {
        assert(s.take(k) =~= s);
    }
}

/// Whether every character of `t` from `start` on is a decimal digit.
fn all_digits_from(t: &[char], start: usize) -> (r: bool)
    requires
        start <= t@.len(),
    ensures
        r == forall|j: int| 0 <= j < t@.skip(start as int).len() ==> is_digit(#[trigger] t@.skip(start as int)[j]),
{
    let mut i: usize = start;
    while i < t.len()
        invariant
            start <= i <= t@.len(),
            forall|j: int| start <= j < i ==> is_digit(#[trigger] t@[j]),
        decreases t@.len() - i,
    {
        if !('0' <= t[i] && t[i] <= '9') {
            assert(t@.skip(start as int)[i - start] == t@[i as int]);
            return false;
        }
        i = i + 1;
    }
    assert forall|j: int| 0 <= j < t@.skip(start as int).len() implies is_digit(#[trigger] t@.skip(start as int)[j]) by {
        assert(t@.skip(start as int)[j] == t@[start + j]);
    }
    true
}

/// One more digit: the value of the first `k + 1` digits.
proof fn lemma_digits_value_step(s: Seq<char>, k: int)
    requires
        0 <= k < s.len(),
    ensures
        digits_value(s.take(k + 1)) == digits_value(s.take(k)) * 10 + digit_value(s[k]),
{
    assert(s.take(k + 1).drop_last() =~= s.take(k));
    assert(s.take(k + 1).last() == s[k]);
}

/// `t` read as an unsigned machine integer (see `usize_text_value`).
fn parse_usize(t: &[char]) -> (r: Option<usize>)
    ensures
        match r {
            Some(v) => usize_text_value(t@) == Some(v as nat),
            None => usize_text_value(t@).is_none(),
        },
{
    let n = t.len();
    let start: usize = if n > 0 && t[0] == '+' { 1 } else { 0 };
    let ghost digits = if t@.len() > 0 && t@[0] == '+' { t@.drop_first() } else { t@ };
    assert(digits =~= t@.skip(start as int));
    if start == n || !all_digits_from(t, start) {
        return None;
    }
    let mut v: usize = 0;
    let mut i: usize = start;
    assert(digits.take(0) =~= Seq::<char>::empty());
    while i < n
        invariant
            start <= i <= n,
            n == t@.len(),
            digits == t@.skip(start as int),
            digits == (if t@.len() > 0 && t@[0] == '+' { t@.drop_first() } else { t@ }),
            forall|j: int| 0 <= j < digits.len() ==> is_digit(#[trigger] digits[j]),
            v as nat == digits_value(digits.take(i - start)),
        decreases n - i,
    {
        assert(digits[i - start] == t@[i as int]);
        assert(is_digit(t@[i as int]));
        let d = (t[i] as u32 - '0' as u32) as usize;
        proof {
            lemma_digits_value_step(digits, i - start);
        }
        assert(d as nat == digit_value(digits[i - start]));
        assert(digits_value(digits.take(i - start + 1)) == v * 10 + d);
        let next = match v.checked_mul(10) {
            Some(w) => w.checked_add(d),
            None => None,
        };
        match next {
            Some(x) => {
                v = x;
            },
            None => {
                proof {
                    lemma_digits_value_prefix(digits, i - start + 1);
                }
                assert(decimal_value(digits) == Some(digits_value(digits)));
                return None;
            },
        }
        i = i + 1;
    }
    assert(digits.take(n - start) =~= digits);
    Some(v)
}

/// Name for what `str::to_lowercase` returns: the Unicode lowercase mapping of a text.
pub uninterp spec fn lowercase_text(s: Seq<char>) -> Seq<char>;

/// `str::to_lowercase`: `s` with each character replaced by its Unicode lowercase
/// mapping. The contract names the result and states nothing more of it.
#[verifier::external_body]
fn lowercase(s: &str) -> (r: String)
    ensures
        r@ == lowercase_text(s@),
{
    s.to_lowercase()
}

/// `n` occurs in `h`.
pub open spec fn holds_text(h: Seq<char>, n: Seq<char>) -> bool {
    exists|i: int| 0 <= i && i + n.len() <= h.len() && #[trigger] h.subrange(i, i + n.len()) == n
}

/// Whether `n` occurs in `h` at position `i`.
fn matches_at(h: &[char], n: &[char], i: usize) -> (r: bool)
    requires
        i + n@.len() <= h@.len(),
    ensures
        r == (h@.subrange(i as int, i + n@.len()) == n@),
{
    let mut j: usize = 0;
    while j < n.len()
        invariant
            i + n@.len() <= h.len(),
            j <= n@.len(),
            forall|q: int| 0 <= q < j ==> h@[i + q] == n@[q],
        decreases n@.len() - j,
    {
        if h[i + j] != n[j] {
            assert(h@.subrange(i as int, i + n@.len())[j as int] != n@[j as int]);
            return false;
        }
        j = j + 1;
    }
    assert(h@.subrange(i as int, i + n@.len()) =~= n@);
    true
}

/// Whether `n` occurs in `h`.
fn contains_chars(h: &[char], n: &[char]) -> (r: bool)
    ensures
        r == holds_text(h@, n@),
{
    if n.len() > h.len() {
        return false;
    }
    let last = h.len() - n.len();
    let mut i: usize = 0;
    loop
        invariant
            last == h.len() - n.len(),
            n.len() <= h.len(),
            i <= last,
            forall|p: int| 0 <= p < i ==> #[trigger] h@.subrange(p, p + n@.len()) != n@,
        decreases last - i,
    {
        if matches_at(h, n, i) {
            return true;
        }
        if i == last {
            return false;
        }
        i = i + 1;
    }
}

/// How the output device was chosen.
#[derive(Debug, Clone, Copy, PartialEq, Eq, Structural)]
pub enum DeviceChoice {
    /// No selector: the system's default output device.
    Default,
    /// The device at this position of the device list.
    Index(usize),
}

/// Why no device matches a selector.
#[derive(Debug, Clone, PartialEq, Eq)]
pub enum DeviceSelectError {
    /// The selector is a number past the end of the device list.
    NoDeviceAtIndex { index: usize },
    /// No device name holds the selector.
    NoMatch,
    /// Several device names hold the selector; their positions in order.
    Ambiguous { matches: Vec<usize> },
}

/// The selector without surrounding white space, empty when there is none.
pub open spec fn selector_text(selector: Option<Seq<char>>) -> Seq<char> {
    match selector {
        Some(s) => trim_end(trim_start(s)),
        None => Seq::empty(),
    }
}

/// Positions, among the first `n` names, of the names whose lowercase holds `lt`.
pub open spec fn partial_matches(lt: Seq<char>, names: Seq<Seq<char>>, n: nat) -> Seq<int>
    decreases n,
{
    if n == 0 {
        Seq::empty()
    } else {
        let prev = partial_matches(lt, names, (n - 1) as nat);
        if holds_text(lowercase_text(names[n - 1]), lt) {
            prev.push(n - 1)
        } else {
            prev
        }
    }
}

/// `r` is the outcome of choosing among devices `names` with `selector`: the default
/// device without a selector; a number picks by position; else the first device of
/// exactly that name; else the one device whose lowercase name holds the lowercase
/// selector, if there is exactly one.
pub open spec fn device_selected(selector: Option<Seq<char>>, names: Seq<Seq<char>>, r: Result<DeviceChoice, DeviceSelectError>) -> bool {
    let t = selector_text(selector);
    if t.len() == 0 {
        r == Ok::<DeviceChoice, DeviceSelectError>(DeviceChoice::Default)
    } else if usize_text_value(t).is_some() {
        let i = usize_text_value(t).unwrap();
        if i < names.len() {
            r == Ok::<DeviceChoice, DeviceSelectError>(DeviceChoice::Index(i as usize))
        } else {
            r == Err::<DeviceChoice, DeviceSelectError>(DeviceSelectError::NoDeviceAtIndex { index: i as usize })
        }
    } else if first_index(names, t) >= 0 {
        r == Ok::<DeviceChoice, DeviceSelectError>(DeviceChoice::Index(first_index(names, t) as usize))
    } else {
        let m = partial_matches(lowercase_text(t), names, names.len());
        if m.len() == 1 {
            r == Ok::<DeviceChoice, DeviceSelectError>(DeviceChoice::Index(m[0] as usize))
        } else if m.len() == 0 {
            r == Err::<DeviceChoice, DeviceSelectError>(DeviceSelectError::NoMatch)
        } else {
            r matches Err(DeviceSelectError::Ambiguous { matches }) && matches@.map_values(|k: usize| k as int) == m
        }
    }
}

/// The names of the devices, as texts.
pub open spec fn name_texts(names: Seq<String>) -> Seq<Seq<char>> {
    names.map_values(|s: String| s@)
}

/// Positions, among the first `n` lowercase names, of those that hold `lt`.
pub open spec fn lowercase_matches(lt: Seq<char>, lower_names: Seq<Seq<char>>, n: nat) -> Seq<int>
    decreases n,
{
    if n == 0 {
        Seq::empty()
    } else {
        let prev = lowercase_matches(lt, lower_names, (n - 1) as nat);
        if holds_text(lower_names[n - 1], lt) {
            prev.push(n - 1)
        } else {
            prev
        }
    }
}

proof fn lemma_partial_matches_lowered(lt: Seq<char>, names: Seq<Seq<char>>, lower: Seq<Seq<char>>, n: nat)
    requires
        n <= names.len(),
        n <= lower.len(),
        forall|j: int| 0 <= j < n ==> #[trigger] lower[j] == lowercase_text(names[j]),
    ensures
        partial_matches(lt, names, n) == lowercase_matches(lt, lower, n),
    decreases n,
{
    if n > 0 {
        lemma_partial_matches_lowered(lt, names, lower, (n - 1) as nat);
        assert(lower[n - 1] == lowercase_text(names[n - 1]));
    }
}

/// Positions, in order, of the lowercase device names that hold the lowercase selector.
pub fn partial_device_matches(lower_selector: &str, lower_names: &Vec<String>) -> (m: Vec<usize>)
    ensures
        m@.map_values(|x: usize| x as int) == lowercase_matches(lower_selector@, name_texts(lower_names@), lower_names@.len()),
{
    let ghost lv = name_texts(lower_names@);
    let lt = chars_of(lower_selector);
    let mut matches: Vec<usize> = Vec::new();
    let mut k: usize = 0;
    assert(matches@.map_values(|x: usize| x as int) =~= lowercase_matches(lower_selector@, lv, 0));
    while k < lower_names.len()
        invariant
            k <= lower_names@.len(),
            lv == name_texts(lower_names@),
            lt@ == lower_selector@,
            matches@.map_values(|x: usize| x as int) == lowercase_matches(lower_selector@, lv, k as nat),
        decreases lower_names@.len() - k,
    {
        let ln = chars_of(lower_names[k].as_str());
        assert(lv[k as int] == lower_names@[k as int]@);
        let ghost before = matches@;
        if contains_chars(ln.as_slice(), lt.as_slice()) {
            matches.push(k);
            assert(matches@.map_values(|x: usize| x as int) =~= before.map_values(|x: usize| x as int).push(k as int));
        }
        k = k + 1;
    }
    matches
}

/// The characters of an optional selector.
pub open spec fn selector_view(selector: Option<&str>) -> Option<Seq<char>> {
    match selector {
        Some(s) => Some(s@),
        None => None,
    }
}

/// The output device to open for `selector` among devices `names` (see
/// `device_selected`).
pub fn select_output_device(selector: Option<&str>, names: &Vec<String>) -> (r: Result<DeviceChoice, DeviceSelectError>)
    ensures
        device_selected(selector_view(selector), name_texts(names@), r),
{
    let ghost nv = name_texts(names@);
    let t: Vec<char> = match selector {
        Some(s) => {
            let c = chars_of(s);
            trim_chars(c.as_slice())
        },
        None => Vec::new(),
    };
    assert(t@ == selector_text(selector_view(selector)));
    if t.len() == 0 {
        return Ok(DeviceChoice::Default);
    }
    match parse_usize(t.as_slice()) {
        Some(i) => {
            if i < names.len() {
                return Ok(DeviceChoice::Index(i));
            } else {
                return Err(DeviceSelectError::NoDeviceAtIndex { index: i });
            }
        },
        None => {},
    }
    let ts = string_from_chars(t.as_slice());
    let mut k: usize = 0;
    while k < names.len()
        invariant
            k <= names@.len(),
            nv == name_texts(names@),
            ts@ == t@,
            t@.len() > 0,
            usize_text_value(t@).is_none(),
            t@ == selector_text(selector_view(selector)),
            forall|j: int| 0 <= j < k ==> #[trigger] nv[j] != t@,
        decreases names@.len() - k,
    {
        assert(nv[k as int] == names@[k as int]@);
        if names[k].eq(&ts) {
            proof {
                lemma_first_index(nv, t@, k as int);
            }
            return Ok(DeviceChoice::Index(k));
        }
        k = k + 1;
    }
    assert(first_index(nv, t@) == -1) by {
        reveal(first_index);
    }
    let lower_selector = lowercase(ts.as_str());
    let mut lower_names: Vec<String> = Vec::new();
    let mut k: usize = 0;
    while k < names.len()
        invariant
            k <= names@.len(),
            nv == name_texts(names@),
            lower_names@.len() == k,
            forall|j: int| 0 <= j < k ==> #[trigger] lower_names@[j]@ == lowercase_text(nv[j]),
        decreases names@.len() - k,
    {
        assert(nv[k as int] == names@[k as int]@);
        lower_names.push(lowercase(names[k].as_str()));
        k = k + 1;
    }
    let matches = partial_device_matches(lower_selector.as_str(), &lower_names);
    assert(partial_matches(lowercase_text(t@), nv, names@.len()) =~= lowercase_matches(lowercase_text(t@), name_texts(lower_names@), lower_names@.len())) by {
        lemma_partial_matches_lowered(lowercase_text(t@), nv, name_texts(lower_names@), names@.len());
    }
    if matches.len() == 1 {
        Ok(DeviceChoice::Index(matches[0]))
    } else if matches.len() == 0 {
        Err(DeviceSelectError::NoMatch)
    } else {
        Err(DeviceSelectError::Ambiguous { matches })
    }
}

/// The name under which a sample format is listed.
pub open spec fn format_text(format: SampleFormatKind) -> Seq<char> {
    match format {
        SampleFormatKind::I8 => seq!['I', '8'],
        SampleFormatKind::I16 => seq!['I', '1', '6'],
        SampleFormatKind::I32 => seq!['I', '3', '2'],
        SampleFormatKind::I64 => seq!['I', '6', '4'],
        SampleFormatKind::U8 => seq!['U', '8'],
        SampleFormatKind::U16 => seq!['U', '1', '6'],
        SampleFormatKind::U32 => seq!['U', '3', '2'],
        SampleFormatKind::U64 => seq!['U', '6', '4'],
        SampleFormatKind::F32 => seq!['F', '3', '2'],
        SampleFormatKind::F64 => seq!['F', '6', '4'],
        SampleFormatKind::Other => seq!['O', 't', 'h', 'e', 'r'],
    }
}

fn push_format(out: &mut Vec<char>, format: SampleFormatKind)
    ensures
        final(out)@ == old(out)@ + format_text(format),
{
    let text: &[char] = match format {
        SampleFormatKind::I8 => &['I', '8'],
        SampleFormatKind::I16 => &['I', '1', '6'],
        SampleFormatKind::I32 => &['I', '3', '2'],
        SampleFormatKind::I64 => &['I', '6', '4'],
        SampleFormatKind::U8 => &['U', '8'],
        SampleFormatKind::U16 => &['U', '1', '6'],
        SampleFormatKind::U32 => &['U', '3', '2'],
        SampleFormatKind::U64 => &['U', '6', '4'],
        SampleFormatKind::F32 => &['F', '3', '2'],
        SampleFormatKind::F64 => &['F', '6', '4'],
        SampleFormatKind::Other => &['O', 't', 'h', 'e', 'r'],
    };
    assert(text@ =~= format_text(format));
    push_chars(out, text);
}

/// A device and what it reported of its supported configurations.
#[derive(Debug)]
pub struct OutputDeviceInfo {
    pub name: String,
    pub configs: Result<Vec<OutputConfigRange>, String>,
}

/// `      <channels>ch <format> <min>-<max> Hz` and a line feed.
pub open spec fn config_line(c: OutputConfigRange) -> Seq<char> {
    seq![' ', ' ', ' ', ' ', ' ', ' '] + decimal_text(c.channels as nat) + seq!['c', 'h', ' '] + format_text(c.format)
        + seq![' '] + decimal_text(c.min_sample_rate as nat) + seq!['-'] + decimal_text(c.max_sample_rate as nat)
        + seq![' ', 'H', 'z', '\n']
}

/// The lines of the first `n` configurations.
pub open spec fn config_lines(cs: Seq<OutputConfigRange>, n: nat) -> Seq<char>
    decreases n,
{
    if n == 0 {
        Seq::empty()
    } else {
        config_lines(cs, (n - 1) as nat) + config_line(cs[n - 1])
    }
}

/// `      failed to query supported configs: `.
pub open spec fn config_error_prefix() -> Seq<char> {
    seq![' ', ' ', ' ', ' ', ' ', ' ', 'f', 'a', 'i', 'l', 'e', 'd', ' ', 't', 'o', ' ', 'q', 'u', 'e', 'r', 'y', ' ', 's', 'u', 'p', 'p', 'o', 'r', 't', 'e', 'd', ' ', 'c', 'o', 'n', 'f', 'i', 'g', 's', ':', ' ']
}

/// The listing of device `d` at position `i`: `  [<i>] <name>`, then its configurations
/// or why they could not be queried.
pub open spec fn device_block(i: nat, d: OutputDeviceInfo) -> Seq<char> {
    seq![' ', ' ', '['] + decimal_text(i) + seq![']', ' '] + d.name@ + seq!['\n'] + match d.configs {
        Ok(cs) => config_lines(cs@, cs@.len()),
        Err(e) => config_error_prefix() + e@ + seq!['\n'],
    }
}

/// The listings of the first `n` devices.
pub open spec fn device_blocks(ds: Seq<OutputDeviceInfo>, n: nat) -> Seq<char>
    decreases n,
{
    if n == 0 {
        Seq::empty()
    } else {
        device_blocks(ds, (n - 1) as nat) + device_block((n - 1) as nat, ds[n - 1])
    }
}

/// `Audio output devices:`, each device's listing, or `  no output devices found`.
pub open spec fn devices_listing(ds: Seq<OutputDeviceInfo>) -> Seq<char> {
    seq!['A', 'u', 'd', 'i', 'o', ' ', 'o', 'u', 't', 'p', 'u', 't', ' ', 'd', 'e', 'v', 'i', 'c', 'e', 's', ':', '\n']
        + device_blocks(ds, ds.len()) + if ds.len() == 0 {
        seq![' ', ' ', 'n', 'o', ' ', 'o', 'u', 't', 'p', 'u', 't', ' ', 'd', 'e', 'v', 'i', 'c', 'e', 's', ' ', 'f', 'o', 'u', 'n', 'd', '\n']
    } else {
        Seq::empty()
    }
}

fn push_config_line(out: &mut Vec<char>, c: OutputConfigRange)
    ensures
        final(out)@ == old(out)@ + config_line(c),
{
    let ghost start = out@;
    let indent = [' ', ' ', ' ', ' ', ' ', ' '];
    push_chars(out, &indent);
    push_decimal(out, c.channels as u64);
    let ch = ['c', 'h', ' '];
    push_chars(out, &ch);
    push_format(out, c.format);
    out.push(' ');
    push_decimal(out, c.min_sample_rate as u64);
    out.push('-');
    push_decimal(out, c.max_sample_rate as u64);
    let hz = [' ', 'H', 'z', '\n'];
    push_chars(out, &hz);
    assert(out@ =~= start + config_line(c));
}

fn push_device_block(out: &mut Vec<char>, i: usize, d: &OutputDeviceInfo)
    ensures
        final(out)@ == old(out)@ + device_block(i as nat, *d),
{
    let ghost start = out@;
    let open = [' ', ' ', '['];
    push_chars(out, &open);
    push_decimal(out, i as u64);
    let close = [']', ' '];
    push_chars(out, &close);
    let name = chars_of(d.name.as_str());
    push_chars(out, name.as_slice());
    out.push('\n');
    let ghost head = out@;
    assert(head =~= start + (seq![' ', ' ', '['] + decimal_text(i as nat) + seq![']', ' '] + d.name@ + seq!['\n']));
    match &d.configs {
        Ok(cs) => {
            let mut k: usize = 0;
            while k < cs.len()
                invariant
                    k <= cs@.len(),
                    out@ == head + config_lines(cs@, k as nat),
                decreases cs@.len() - k,
            {
                push_config_line(out, cs[k]);
                k = k + 1;
            }
        },
        Err(e) => {
            let prefix = [' ', ' ', ' ', ' ', ' ', ' ', 'f', 'a', 'i', 'l', 'e', 'd', ' ', 't', 'o', ' ', 'q', 'u', 'e', 'r', 'y', ' ', 's', 'u', 'p', 'p', 'o', 'r', 't', 'e', 'd', ' ', 'c', 'o', 'n', 'f', 'i', 'g', 's', ':', ' '];
            assert(prefix@ =~= config_error_prefix());
            push_chars(out, &prefix);
            let text = chars_of(e.as_str());
            push_chars(out, text.as_slice());
            out.push('\n');
            assert(out@ =~= head + (config_error_prefix() + e@ + seq!['\n']));
        },
    }
    assert(out@ =~= start + device_block(i as nat, *d));
}

/// The listing of the output devices and their supported configurations (see
/// `devices_listing`).
pub fn format_output_devices(devices: &Vec<OutputDeviceInfo>) -> (s: String)
    ensures
        s@ == devices_listing(devices@),
{
    let mut out: Vec<char> = Vec::new();
    let header = ['A', 'u', 'd', 'i', 'o', ' ', 'o', 'u', 't', 'p', 'u', 't', ' ', 'd', 'e', 'v', 'i', 'c', 'e', 's', ':', '\n'];
    push_chars(&mut out, &header);
    let ghost head = out@;
    let mut k: usize = 0;
    while k < devices.len()
        invariant
            k <= devices@.len(),
            head == seq!['A', 'u', 'd', 'i', 'o', ' ', 'o', 'u', 't', 'p', 'u', 't', ' ', 'd', 'e', 'v', 'i', 'c', 'e', 's', ':', '\n'],
            out@ == head + device_blocks(devices@, k as nat),
        decreases devices@.len() - k,
    {
        push_device_block(&mut out, k, &devices[k]);
        assert(out@ =~= head + device_blocks(devices@, (k + 1) as nat));
        k = k + 1;
    }
    if devices.len() == 0 {
        let none = [' ', ' ', 'n', 'o', ' ', 'o', 'u', 't', 'p', 'u', 't', ' ', 'd', 'e', 'v', 'i', 'c', 'e', 's', ' ', 'f', 'o', 'u', 'n', 'd', '\n'];
        push_chars(&mut out, &none);
    }
    assert(out@ =~= devices_listing(devices@));
    string_from_chars(out.as_slice())
}

} // verus!
