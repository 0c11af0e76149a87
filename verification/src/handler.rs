//! Interpretation of the request parameters that drive request handling:
//! the `PATH_INFO` scope (`<subnet>/<address>`, slash-separated, 1-based)
//! and the one recognized `QUERY_STRING` form, `level=<0-255>`, which
//! triggers a set-level side effect.  The JSON body itself is rendered by
//! the caller from the cache.

use vstd::prelude::*;
use crate::ascii::{all_digits_chars, dec_val_chars, parse_uint_str, strip_plus_chars};

verus! {

/// What part of the cache a request addresses.
pub enum PathScope {
    /// No subnet given: the whole router.
    Root,
    /// A subnet index, no device.
    Subnet(u32),
    /// A subnet index and a device address.
    Device(u32, u32),
}

/// A request parameter that could not be interpreted.
pub enum HandlerParseError {
    SubnetIndex,
    Address,
    Level,
}

impl HandlerParseError {
    /// Human-readable message for this failure.
    pub fn message(&self) -> (m: String)
        ensures
            self is SubnetIndex ==> m@ == "Failed to parse subnet index"@,
            self is Address ==> m@ == "Failed to parse address"@,
            self is Level ==> m@ == "Failed to parse level"@,
    {
        match self {
            HandlerParseError::SubnetIndex => String::from_str("Failed to parse subnet index"),
            HandlerParseError::Address => String::from_str("Failed to parse address"),
            HandlerParseError::Level => String::from_str("Failed to parse level"),
        }
    }
}

/// The end of the path segment starting at `from`: the index of the next
/// slash, or the end of the path.
pub open spec fn seg_end(s: Seq<char>, from: int) -> int
    decreases s.len() - from,
{
    if from >= s.len() {
        s.len() as int
    } else if s[from] == '/' {
        from
    } else {
        seg_end(s, from + 1)
    }
}

/// Whether a character range parses as a u32: an optional `+`, then one or
/// more digits, value within range.
pub open spec fn chars_u32_ok(s: Seq<char>) -> bool {
    let d = strip_plus_chars(s);
    d.len() > 0 && all_digits_chars(d) && dec_val_chars(d) <= u32::MAX
}

/// The number a character range denotes.
pub open spec fn chars_u32(s: Seq<char>) -> int {
    dec_val_chars(strip_plus_chars(s))
}

/// The scope a `PATH_INFO` value addresses.  The subnet index is the first
/// segment, or the second when the path begins with a slash; the device
/// address is the segment after it; later segments are ignored.  An empty
/// path addresses the whole router; a present segment that is not a number
/// is an error.
pub open spec fn spec_path_scope(s: Seq<char>) -> Result<PathScope, HandlerParseError> {
    if s.len() == 0 {
        Ok(PathScope::Root)
    } else {
        let e0 = seg_end(s, 0);
        let b1: int = if e0 == 0 {
            1
        } else {
            0
        };
        let e1 = if e0 == 0 {
            seg_end(s, 1)
        } else {
            e0
        };
        let sub = s.subrange(b1, e1);
        if !chars_u32_ok(sub) {
            Err(HandlerParseError::SubnetIndex)
        } else {
            if e1 < s.len() {
                let ad = s.subrange(e1 + 1, seg_end(s, e1 + 1));
                if !chars_u32_ok(ad) {
                    Err(HandlerParseError::Address)
                } else {
                    Ok(PathScope::Device(chars_u32(sub) as u32, chars_u32(ad) as u32))
                }
            } else {
                Ok(PathScope::Subnet(chars_u32(sub) as u32))
            }
        }
    }
}

/// Finds the end of the path segment starting at `from`.
fn find_seg_end(s: &str, from: usize) -> (r: usize)
    requires
        from <= s@.len(),
    ensures
        r == seg_end(s@, from as int),
        from <= r <= s@.len(),
    decreases s@.len() - from,
{
    let n = s.unicode_len();
    if from >= n {
        n
    } else if s.get_char(from) == '/' {
        from
    } else {
        find_seg_end(s, from + 1)
    }
}

/// See [`spec_path_scope`].
pub fn parse_path_info(path: &str) -> (r: Result<PathScope, HandlerParseError>)
    ensures
        r == spec_path_scope(path@),
{
    let n = path.unicode_len();
    if n == 0 {
        return Ok(PathScope::Root);
    }
    let e0 = find_seg_end(path, 0);
    let b1: usize = if e0 == 0 {
        1
    } else {
        0
    };
    let e1: usize = if e0 == 0 {
        find_seg_end(path, 1)
    } else {
        e0
    };
    let subnet = match parse_uint_str(path, b1, e1, 0xffff_ffff) {
        Some(v) => v as u32,
        None => {
            return Err(HandlerParseError::SubnetIndex);
        },
    };
    if e1 < n {
        let e2 = find_seg_end(path, e1 + 1);
        let addr = match parse_uint_str(path, e1 + 1, e2, 0xffff_ffff) {
            Some(v) => v as u32,
            None => {
                return Err(HandlerParseError::Address);
            },
        };
        Ok(PathScope::Device(subnet, addr))
    } else {
        Ok(PathScope::Subnet(subnet))
    }
}

/// The set-level request a `QUERY_STRING` value carries: the level of a
/// `level=<0-255>` string, nothing for any other string, and an error for a
/// `level=` prefix whose argument is not a level.
pub open spec fn spec_level_request(q: Seq<char>) -> Result<Option<u8>, HandlerParseError> {
    if q.len() >= 6 && q.subrange(0, 6) == "level="@ {
        let d = strip_plus_chars(q.subrange(6, q.len() as int));
        if d.len() > 0 && all_digits_chars(d) && dec_val_chars(d) <= 255 {
            Ok(Some(dec_val_chars(d) as u8))
        } else {
            Err(HandlerParseError::Level)
        }
    } else {
        Ok(None)
    }
}

/// See [`spec_level_request`].
pub fn parse_level_query(query: &str) -> (r: Result<Option<u8>, HandlerParseError>)
    ensures
        r == spec_level_request(query@),
{
    let n = query.unicode_len();
    let is_level = n >= 6 && query.get_char(0) == 'l' && query.get_char(1) == 'e'
        && query.get_char(2) == 'v' && query.get_char(3) == 'e' && query.get_char(4) == 'l'
        && query.get_char(5) == '=';
    proof {
        reveal_strlit("level=");
        if is_level {
            assert(query@.subrange(0, 6) =~= "level="@);
        } else if n >= 6 {
            if query@.subrange(0, 6) == "level="@ {
                assert(query@[0] == query@.subrange(0, 6)[0]);
                assert(query@[1] == query@.subrange(0, 6)[1]);
                assert(query@[2] == query@.subrange(0, 6)[2]);
                assert(query@[3] == query@.subrange(0, 6)[3]);
                assert(query@[4] == query@.subrange(0, 6)[4]);
                assert(query@[5] == query@.subrange(0, 6)[5]);
                assert(false);
            }
        }
    }
    if !is_level {
        return Ok(None);
    }
    match parse_uint_str(query, 6, n, 255) {
        Some(v) => Ok(Some(v as u8)),
        None => Err(HandlerParseError::Level),
    }
}

/// The header block introducing a JSON response body.
pub fn json_content_type_header() -> (s: String)
    ensures
        s@ == "Content-type: application/json\r\n\r\n"@,
{
    String::from_str("Content-type: application/json\r\n\r\n")
}

} // verus!
