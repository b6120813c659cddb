use vstd::prelude::*;

verus! {

/// A USB vendor/product identifier pair.
#[derive(Clone, Copy, Debug, PartialEq, Eq, Hash, Structural)]
pub struct DeviceID {
    pub vid: u16,
    pub pid: u16,
}

/// Why a `vvvv:pppp` identity string was refused.
#[derive(Clone, Copy, Debug, PartialEq, Eq, Structural)]
pub enum DeviceIdError {
    InvalidFormat,
    InvalidVid,
    InvalidPid,
}

impl DeviceIdError {
    pub fn message(&self) -> (r: &'static str)
        ensures
            r@ == (match *self {
                DeviceIdError::InvalidFormat => "Invalid format."@,
                DeviceIdError::InvalidVid => "Invalid VID."@,
                DeviceIdError::InvalidPid => "Invalid PID."@,
            }),
    {
        match self {
            DeviceIdError::InvalidFormat => "Invalid format.",
            DeviceIdError::InvalidVid => "Invalid VID.",
            DeviceIdError::InvalidPid => "Invalid PID.",
        }
    }
}

/// Value of one hexadecimal digit, either case.
pub open spec fn hex_digit_value(c: char) -> Option<nat> {
    let u = c as u32;
    if '0' as u32 <= u && u <= '9' as u32 {
        Some((u - '0' as u32) as nat)
    } else if 'a' as u32 <= u && u <= 'f' as u32 {
        Some((u - 'a' as u32 + 10) as nat)
    } else if 'A' as u32 <= u && u <= 'F' as u32 {
        Some((u - 'A' as u32 + 10) as nat)
    } else {
        None
    }
}

/// Value of a string of hexadecimal digits, most significant first; the
/// empty string is worth zero.
pub open spec fn hex_value(s: Seq<char>) -> Option<nat>
    decreases s.len(),
{
    if s.len() == 0 {
        Some(0)
    } else {
        match (hex_value(s.drop_last()), hex_digit_value(s.last())) {
            (Some(h), Some(d)) => Some(h * 16 + d),
            _ => None,
        }
    }
}

/// The text after one leading `+`, if there is one.
pub open spec fn without_plus(s: Seq<char>) -> Seq<char> {
    if s.len() > 0 && s[0] == '+' {
        s.subrange(1, s.len() as int)
    } else {
        s
    }
}

/// The 16-bit number that a hexadecimal text denotes: an optional `+`, then
/// at least one digit, with a value that fits in 16 bits.
pub open spec fn spec_parse_hex_u16(s: Seq<char>) -> Option<u16> {
    let digits = without_plus(s);
    if digits.len() == 0 {
        None
    } else {
        match hex_value(digits) {
            Some(v) => if v <= 0xffff {
                Some(v as u16)
            } else {
                None
            },
            None => None,
        }
    }
}

/// Index of the first `:` at or after `from`, or the length if none.
pub open spec fn colon_from(s: Seq<char>, from: int) -> int
    decreases s.len() - from,
{
    if from >= s.len() {
        s.len() as int
    } else if s[from] == ':' {
        from
    } else {
        colon_from(s, from + 1)
    }
}

/// The identity that a `vvvv:pppp` text denotes: the text before the first
/// `:` is the vendor, the text between it and the next `:` (or the end) is
/// the product, both hexadecimal.
pub open spec fn spec_device_id(s: Seq<char>) -> Result<DeviceID, DeviceIdError> {
    let e1 = colon_from(s, 0);
    match spec_parse_hex_u16(s.subrange(0, e1)) {
        None => Err(DeviceIdError::InvalidVid),
        Some(vid) => if e1 >= s.len() {
            Err(DeviceIdError::InvalidFormat)
        } else {
            let e2 = colon_from(s, e1 + 1);
            match spec_parse_hex_u16(s.subrange(e1 + 1, e2)) {
                None => Err(DeviceIdError::InvalidPid),
                Some(pid) => Ok(DeviceID { vid, pid }),
            }
        },
    }
}

proof fn lemma_colon_from_bounds(s: Seq<char>, from: int)
    requires
        0 <= from <= s.len(),
    ensures
        from <= colon_from(s, from) <= s.len(),
        colon_from(s, from) < s.len() ==> s[colon_from(s, from)] == ':',
    decreases s.len() - from,
{
    if from < s.len() && s[from] != ':' {
        lemma_colon_from_bounds(s, from + 1);
    }
}

/// An invalid digit anywhere makes the whole text invalid.
proof fn lemma_hex_value_none_extends(s: Seq<char>, k: int)
    requires
        0 <= k <= s.len(),
        hex_value(s.subrange(0, k)) is None,
    ensures
        hex_value(s) is None,
    decreases s.len(),
{
    if k < s.len() {
        assert(s.drop_last().subrange(0, k) =~= s.subrange(0, k));
        lemma_hex_value_none_extends(s.drop_last(), k);
    } else {
        assert(s.subrange(0, k) =~= s);
    }
}

fn find_colon(s: &str, from: usize) -> (r: usize)
    requires
        from <= s@.len(),
    ensures
        r as int == colon_from(s@, from as int),
{
    let n = s.unicode_len();
    let mut i = from;
    while i < n
        invariant
            n == s@.len(),
            from <= i <= n,
            colon_from(s@, from as int) == colon_from(s@, i as int),
        decreases n - i,
    {
        if s.get_char(i) == ':' {
            return i;
        }
        i = i + 1;
    }
    i
}

/// Reads a 16-bit number written in hexadecimal, as `u16::from_str_radix`
/// does with radix 16.
pub fn parse_hex_u16(s: &str) -> (r: Option<u16>)
    ensures
        r == spec_parse_hex_u16(s@),
{
    let n = s.unicode_len();
    let start: usize = if n > 0 && s.get_char(0) == '+' {
        1
    } else {
        0
    };
    let ghost digits = s@.subrange(start as int, n as int);
    assert(digits =~= without_plus(s@));
    if start == n {
        return None;
    }
    let mut acc: u32 = 0;
    let mut big = false;
    let mut i = start;
    assert(digits.subrange(0, 0) =~= Seq::<char>::empty());
    while i < n
        invariant
            n == s@.len(),
            start < n,
            digits == s@.subrange(start as int, n as int),
            digits == without_plus(s@),
            start <= i <= n,
            hex_value(digits.subrange(0, i - start)) is Some,
            !big ==> hex_value(digits.subrange(0, i - start)) == Some(acc as nat),
            !big ==> acc <= 0xffff,
            big ==> hex_value(digits.subrange(0, i - start))->0 > 0xffff,
        decreases n - i,
    {
        let c = s.get_char(i);
        let ghost prefix = digits.subrange(0, i - start);
        let ghost next = digits.subrange(0, i + 1 - start);
        assert(next.drop_last() =~= prefix);
        assert(next.last() == c);
        let d: u32 = if '0' <= c && c <= '9' {
            (c as u32) - ('0' as u32)
        } else if 'a' <= c && c <= 'f' {
            (c as u32) - ('a' as u32) + 10
        } else if 'A' <= c && c <= 'F' {
            (c as u32) - ('A' as u32) + 10
        } else {
            proof {
                lemma_hex_value_none_extends(digits, i + 1 - start);
            }
            return None;
        };
        assert(hex_digit_value(c) == Some(d as nat));
        if !big {
            acc = acc * 16 + d;
            if acc > 0xffff {
                big = true;
            }
        }
        i = i + 1;
    }
    assert(digits.subrange(0, n - start) =~= digits);
    if big {
        None
    } else {
        Some(acc as u16)
    }
}

/// Lower-case hexadecimal digit of a value below 16.
pub open spec fn hex_char(d: nat) -> char {
    seq!['0', '1', '2', '3', '4', '5', '6', '7', '8', '9', 'a', 'b', 'c', 'd', 'e', 'f'][d as int]
}

/// A 16-bit value as four lower-case hexadecimal digits, zero-padded.
pub open spec fn hex4(v: u16) -> Seq<char> {
    seq![
        hex_char((v / 4096) as nat),
        hex_char((v / 256 % 16) as nat),
        hex_char((v / 16 % 16) as nat),
        hex_char((v % 16) as nat),
    ]
}

/// The `vvvv:pppp` text of an identity.
pub open spec fn spec_id_text(id: DeviceID) -> Seq<char> {
    hex4(id.vid) + seq![':'] + hex4(id.pid)
}

fn hex_digit_text(d: u16) -> (r: &'static str)
    requires
        d < 16,
    ensures
        r@ == seq![hex_char(d as nat)],
{
    let digits = "0123456789abcdef";
    proof {
        reveal_strlit("0123456789abcdef");
    }
    let r = digits.substring_ascii(d as usize, d as usize + 1);
    assert(r@ =~= seq![hex_char(d as nat)]);
    r
}

fn append_hex4(out: &mut String, v: u16)
    ensures
        final(out)@ == old(out)@ + hex4(v),
{
    out.append(hex_digit_text(v / 4096));
    out.append(hex_digit_text(v / 256 % 16));
    out.append(hex_digit_text(v / 16 % 16));
    out.append(hex_digit_text(v % 16));
    assert(final(out)@ =~= old(out)@ + hex4(v));
}

impl DeviceID {
    /// The identity written as `vvvv:pppp` in lower-case hexadecimal.
    pub fn display_text(&self) -> (r: String)
        ensures
            r@ == spec_id_text(*self),
    {
        let mut out = String::new();
        append_hex4(&mut out, self.vid);
        let colon = ":";
        proof {
            reveal_strlit(":");
        }
        out.append(colon);
        append_hex4(&mut out, self.pid);
        assert(out@ =~= spec_id_text(*self));
        out
    }
}

impl TryFrom<String> for DeviceID {
    type Error = DeviceIdError;

    fn try_from(value: String) -> (r: Result<DeviceID, DeviceIdError>) {
        let s = value.as_str();
        let n = s.unicode_len();
        let e1 = find_colon(s, 0);
        proof {
            lemma_colon_from_bounds(s@, 0);
        }
        let vid = match parse_hex_u16(s.substring_char(0, e1)) {
            Some(v) => v,
            None => return Err(DeviceIdError::InvalidVid),
        };
        if e1 == n {
            return Err(DeviceIdError::InvalidFormat);
        }
        let e2 = find_colon(s, e1 + 1);
        proof {
            lemma_colon_from_bounds(s@, e1 + 1);
        }
        let pid = match parse_hex_u16(s.substring_char(e1 + 1, e2)) {
            Some(v) => v,
            None => return Err(DeviceIdError::InvalidPid),
        };
        Ok(DeviceID { vid, pid })
    }
}

impl vstd::std_specs::convert::TryFromSpecImpl<String> for DeviceID {
    open spec fn obeys_try_from_spec() -> bool {
        true
    }

    open spec fn try_from_spec(v: String) -> Result<DeviceID, DeviceIdError> {
        spec_device_id(v@)
    }
}

} // verus!
