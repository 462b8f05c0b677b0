//! The firewall sub-extractor: splits an already-classified message body of
//! the shape `<rule-label>: KEY=value KEY=value ...` and projects the
//! required `SRC` and `DST` keys into a structured network-log record.

use vstd::prelude::*;

use crate::kernel::Timestamp;
use crate::scan::all_digits;
use crate::scan::digits_end;
use crate::scan::digits_val;
use crate::scan::first_eq_before;
use crate::scan::lemma_first_eq_before_is;
use crate::scan::lemma_run_end;
use crate::scan::lemma_sep_pos_found;
use crate::scan::lemma_sep_pos_none;
use crate::scan::read_digits_val;
use crate::scan::run_end;
use crate::scan::scan_digits_end;
use crate::scan::scan_run_end;
use crate::scan::sep_pos;

verus! {

/// An IPv4 address: the four dotted octets in order.
#[derive(Debug, Clone, Copy, PartialEq, Eq, Structural)]
pub struct Ipv4Address(pub u8, pub u8, pub u8, pub u8);

/// The characters of `s` in `[i, j)` form one dotted-quad octet: one to
/// three digits, no leading zero, value at most 255.
pub open spec fn octet_ok(s: Seq<char>, i: int, j: int) -> bool {
    &&& 1 <= j - i <= 3
    &&& all_digits(s, i, j)
    &&& (j - i == 1 || s[i] != '0')
    &&& digits_val(s, i, j) <= 255
}

/// `s` is exactly an IPv4 address literal: four octets joined by dots.
pub open spec fn ipv4_shape(s: Seq<char>) -> bool {
    let e1 = digits_end(s, 0);
    let e2 = digits_end(s, e1 + 1);
    let e3 = digits_end(s, e2 + 1);
    let e4 = digits_end(s, e3 + 1);
    &&& octet_ok(s, 0, e1)
    &&& e1 < s.len() && s[e1] == '.'
    &&& octet_ok(s, e1 + 1, e2)
    &&& e2 < s.len() && s[e2] == '.'
    &&& octet_ok(s, e2 + 1, e3)
    &&& e3 < s.len() && s[e3] == '.'
    &&& octet_ok(s, e3 + 1, e4)
    &&& e4 == s.len()
}

/// The address an IPv4 literal denotes.
pub open spec fn ipv4_value(s: Seq<char>) -> Ipv4Address {
    let e1 = digits_end(s, 0);
    let e2 = digits_end(s, e1 + 1);
    let e3 = digits_end(s, e2 + 1);
    let e4 = digits_end(s, e3 + 1);
    Ipv4Address(
        digits_val(s, 0, e1) as u8,
        digits_val(s, e1 + 1, e2) as u8,
        digits_val(s, e2 + 1, e3) as u8,
        digits_val(s, e3 + 1, e4) as u8,
    )
}

/// Reads the octet standing in `[i, j)`; `None` exactly when that range is
/// not a well-formed octet.
fn read_octet(s: &str, i: usize, j: usize) -> (r: Option<u8>)
    requires
        i <= j <= s@.len(),
    ensures
        r is Some <==> octet_ok(s@, i as int, j as int),
        r is Some ==> r->Some_0 == digits_val(s@, i as int, j as int),
{
    if j - i < 1 || j - i > 3 {
        return None;
    }
    let v = match read_digits_val(s, i, j) {
        Some(v) => v,
        None => { return None; },
    };
    if j - i > 1 && s.get_char(i) == '0' {
        return None;
    }
    if v > 255 {
        return None;
    }
    Some(v as u8)
}

impl Ipv4Address {
    /// Parses a dotted-quad IPv4 literal; `None` exactly when `s` is not
    /// one (wrong shape, a leading zero, or an octet above 255).
    pub fn parse(s: &str) -> (r: Option<Ipv4Address>)
        ensures
            r is Some <==> ipv4_shape(s@),
            r is Some ==> r->Some_0 == ipv4_value(s@),
    {
        let n = s.unicode_len();
        let e1 = scan_digits_end(s, 0);
        let o1 = match read_octet(s, 0, e1) {
            Some(v) => v,
            None => { return None; },
        };
        if e1 >= n || s.get_char(e1) != '.' {
            return None;
        }
        let e2 = scan_digits_end(s, e1 + 1);
        let o2 = match read_octet(s, e1 + 1, e2) {
            Some(v) => v,
            None => { return None; },
        };
        if e2 >= n || s.get_char(e2) != '.' {
            return None;
        }
        let e3 = scan_digits_end(s, e2 + 1);
        let o3 = match read_octet(s, e2 + 1, e3) {
            Some(v) => v,
            None => { return None; },
        };
        if e3 >= n || s.get_char(e3) != '.' {
            return None;
        }
        let e4 = scan_digits_end(s, e3 + 1);
        let o4 = match read_octet(s, e3 + 1, e4) {
            Some(v) => v,
            None => { return None; },
        };
        if e4 != n {
            return None;
        }
        Some(Ipv4Address(o1, o2, o3, o4))
    }
}

/// A token of the key=value body starts at `j`: a non-space character at
/// the body's start or right after a space.
pub open spec fn is_token_start(b: Seq<char>, j: int) -> bool {
    0 <= j < b.len() && b[j] != ' ' && (j == 0 || b[j - 1] == ' ')
}

/// The token text starting at `j`: the space-free run from there.
pub open spec fn token_text(b: Seq<char>, j: int) -> Seq<char> {
    b.subrange(j, run_end(b, j))
}

/// Position of the first equals sign of the token starting at `j`
/// (the token's end if it has none).
pub open spec fn tok_eq_pos(b: Seq<char>, j: int) -> int {
    first_eq_before(b, j, run_end(b, j))
}

/// The token starting at `j` holds exactly one equals sign, splitting it
/// into a key and a value.
pub open spec fn token_ok(b: Seq<char>, j: int) -> bool {
    let e = run_end(b, j);
    let p = tok_eq_pos(b, j);
    p < e && forall|q: int| p < q < e ==> b[q] != '='
}

/// The key of the token starting at `j`: the text before its equals sign.
pub open spec fn token_key(b: Seq<char>, j: int) -> Seq<char> {
    b.subrange(j, tok_eq_pos(b, j))
}

/// The value of the token starting at `j`: the text after its equals sign.
pub open spec fn token_value(b: Seq<char>, j: int) -> Seq<char> {
    b.subrange(tok_eq_pos(b, j) + 1, run_end(b, j))
}

/// Every token starting before `j` splits into exactly one key=value pair.
pub open spec fn tokens_ok_before(b: Seq<char>, j: int) -> bool {
    forall|k: int| 0 <= k < j && is_token_start(b, k) ==> token_ok(b, k)
}

/// Every token of the body splits into exactly one key=value pair.
pub open spec fn all_tokens_ok(b: Seq<char>) -> bool {
    tokens_ok_before(b, b.len() as int)
}

/// A well-formed token with the given key starts at `j`.
pub open spec fn key_match(b: Seq<char>, j: int, key: Seq<char>) -> bool {
    is_token_start(b, j) && token_ok(b, j) && token_key(b, j) == key
}

/// Some well-formed token of the body carries the given key.
pub open spec fn has_key(b: Seq<char>, key: Seq<char>) -> bool {
    exists|j: int| key_match(b, j, key)
}

/// The token at `j` is the last one of the body carrying the given key:
/// repeated keys resolve to it, a deterministic last-write-wins tie-break.
pub open spec fn last_key_at(b: Seq<char>, key: Seq<char>, j: int) -> bool {
    key_match(b, j, key) && forall|k: int| j < k < b.len() ==> !key_match(b, k, key)
}

/// The required source-address key.
pub open spec fn src_key() -> Seq<char> {
    seq!['S', 'R', 'C']
}

/// The required destination-address key.
pub open spec fn dst_key() -> Seq<char> {
    seq!['D', 'S', 'T']
}

/// At most one token is the last one with a given key.
pub proof fn lemma_last_key_unique(b: Seq<char>, key: Seq<char>, j1: int, j2: int)
    requires
        last_key_at(b, key, j1),
        last_key_at(b, key, j2),
    ensures
        j1 == j2,
{
    assert(j1 < b.len() && j2 < b.len());
}

/// A typed failure of the firewall sub-extractor.
#[derive(Debug, PartialEq, Eq)]
pub enum IptablesLineError {
    /// The message holds no `": "` separating the rule label from the body.
    MissingSeparator { input: String },
    /// A body token does not split into exactly one key=value pair; the
    /// line is rejected rather than guessing a pairing.
    MalformedToken { token: String },
    /// A required key (`SRC` or `DST`) is absent from the body.
    MissingKey { key: String },
    /// A required key's value is not an IPv4 address literal.
    InvalidAddress { key: String, value: String },
}

/// The structured record extracted from one firewall log line.
#[derive(Debug, PartialEq, Eq)]
pub struct IptablesLogLine {
    pub timestamp: Timestamp,
    pub source_ip: Ipv4Address,
    pub destination_ip: Ipv4Address,
    /// The literal rule label preceding the key=value body.
    pub log_type: String,
}

/// The key=value body of the message: everything past the first `": "`.
pub open spec fn body_of(s: Seq<char>) -> Seq<char> {
    s.subrange(sep_pos(s, 0) + 2, s.len() as int)
}

/// The rule label of the message: everything before the first `": "`.
pub open spec fn label_of(s: Seq<char>) -> Seq<char> {
    s.subrange(0, sep_pos(s, 0))
}

/// Extraction succeeds: a separator exists, every token is well formed,
/// and the last `SRC` and `DST` tokens carry IPv4 address literals.
pub open spec fn extract_ok(s: Seq<char>) -> bool {
    let b = body_of(s);
    &&& sep_pos(s, 0) >= 0
    &&& all_tokens_ok(b)
    &&& exists|j: int| last_key_at(b, src_key(), j) && ipv4_shape(token_value(b, j))
    &&& exists|j: int| last_key_at(b, dst_key(), j) && ipv4_shape(token_value(b, j))
}

/// The failure value extraction reports, in the order the extractor
/// decides: the separator, then token shape, then `SRC`, then `DST`.
pub open spec fn extract_err_matches(e: IptablesLineError, s: Seq<char>) -> bool {
    let b = body_of(s);
    if sep_pos(s, 0) == -1 {
        e matches IptablesLineError::MissingSeparator { input } && input@ == s
    } else if !all_tokens_ok(b) {
        e matches IptablesLineError::MalformedToken { token } && exists|j: int|
            is_token_start(b, j) && !token_ok(b, j) && tokens_ok_before(b, j) && token@
                == token_text(b, j)
    } else if !has_key(b, src_key()) {
        e matches IptablesLineError::MissingKey { key } && key@ == src_key()
    } else if exists|j: int| last_key_at(b, src_key(), j) && !ipv4_shape(token_value(b, j)) {
        e matches IptablesLineError::InvalidAddress { key, value } && key@ == src_key()
            && exists|j: int| last_key_at(b, src_key(), j) && value@ == token_value(b, j)
    } else if !has_key(b, dst_key()) {
        e matches IptablesLineError::MissingKey { key } && key@ == dst_key()
    } else {
        e matches IptablesLineError::InvalidAddress { key, value } && key@ == dst_key()
            && exists|j: int| last_key_at(b, dst_key(), j) && value@ == token_value(b, j)
    }
}

/// Compares the key of the token at `i` (its equals sign at `q`) with a
/// three-character key.
fn key_is(body: &str, i: usize, q: usize, k0: char, k1: char, k2: char) -> (r: bool)
    requires
        i <= q <= body@.len(),
    ensures
        r == (body@.subrange(i as int, q as int) == seq![k0, k1, k2]),
{
    let r = q - i == 3 && body.get_char(i) == k0 && body.get_char(i + 1) == k1 && body.get_char(
        i + 2,
    ) == k2;
    proof {
        let kk = seq![k0, k1, k2];
        let sub = body@.subrange(i as int, q as int);
        if r {
            assert(sub =~= kk);
        } else if sub == kk {
            assert(sub.len() == 3);
            assert(body@[i as int] == sub[0] && body@[i as int + 1] == sub[1] && body@[i as int
                + 2] == sub[2]);
            assert(false);
        }
    }
    r
}

/// Scans the body's tokens left to right: checks that every token splits
/// into exactly one key=value pair and tracks the value spans of the last
/// `SRC` and the last `DST` token.
fn scan_kv_tokens(body: &str) -> (r: Result<
    (Option<(usize, usize)>, Option<(usize, usize)>),
    IptablesLineError,
>)
    ensures
        match r {
            Result::Ok(spans) => {
                &&& all_tokens_ok(body@)
                &&& match spans.0 {
                    Option::Some(sp) => exists|j: int|
                        last_key_at(body@, src_key(), j) && sp.0 == tok_eq_pos(body@, j) + 1
                            && sp.1 == run_end(body@, j),
                    Option::None => !has_key(body@, src_key()),
                }
                &&& match spans.1 {
                    Option::Some(sp) => exists|j: int|
                        last_key_at(body@, dst_key(), j) && sp.0 == tok_eq_pos(body@, j) + 1
                            && sp.1 == run_end(body@, j),
                    Option::None => !has_key(body@, dst_key()),
                }
            },
            Result::Err(e) => !all_tokens_ok(body@) && (e matches
                IptablesLineError::MalformedToken { token } && exists|j: int|
                    is_token_start(body@, j) && !token_ok(body@, j) && tokens_ok_before(body@, j)
                        && token@ == token_text(body@, j)),
        },
{
    let ghost b = body@;
    let n = body.unicode_len();
    let mut i: usize = 0;
    let mut src: Option<(usize, usize)> = None;
    let mut dst: Option<(usize, usize)> = None;
    let ghost mut srcj: int = 0;
    let ghost mut dstj: int = 0;
    while i < n
        invariant
            i <= n,
            n == b.len(),
            b == body@,
            i as int == n as int || i as int == 0 || b[i - 1] == ' ' || b[i as int] == ' ',
            tokens_ok_before(b, i as int),
            match src {
                Option::Some(sp) => 0 <= srcj < i as int && key_match(b, srcj, src_key())
                    && sp.0 == tok_eq_pos(b, srcj) + 1 && sp.1 == run_end(b, srcj) && (forall|
                    k: int,
                |
                    srcj < k < i as int ==> !key_match(b, k, src_key())),
                Option::None => forall|k: int| 0 <= k < i as int ==> !key_match(b, k, src_key()),
            },
            match dst {
                Option::Some(sp) => 0 <= dstj < i as int && key_match(b, dstj, dst_key())
                    && sp.0 == tok_eq_pos(b, dstj) + 1 && sp.1 == run_end(b, dstj) && (forall|
                    k: int,
                |
                    dstj < k < i as int ==> !key_match(b, k, dst_key())),
                Option::None => forall|k: int| 0 <= k < i as int ==> !key_match(b, k, dst_key()),
            },
        decreases n - i,
    {
        if body.get_char(i) == ' ' {
            i = i + 1;
        } else {
            assert(is_token_start(b, i as int));
            let te = scan_run_end(body, i);
            proof {
                lemma_run_end(b, i as int);
                assert(te > i);
            }
            let mut q = i;
            while q < te && body.get_char(q) != '='
                invariant
                    i <= q <= te,
                    te <= n,
                    n == b.len(),
                    b == body@,
                    forall|k: int| i <= k < q ==> b[k] != '=',
                decreases te - q,
            {
                q = q + 1;
            }
            proof {
                lemma_first_eq_before_is(b, i as int, run_end(b, i as int), q as int);
            }
            if q == te {
                assert(!token_ok(b, i as int));
                return Err(
                    IptablesLineError::MalformedToken {
                        token: body.substring_char(i, te).to_owned(),
                    },
                );
            }
            let mut q2 = q + 1;
            while q2 < te && body.get_char(q2) != '='
                invariant
                    q + 1 <= q2 <= te,
                    te <= n,
                    n == b.len(),
                    b == body@,
                    forall|k: int| q < k < q2 ==> b[k] != '=',
                decreases te - q2,
            {
                q2 = q2 + 1;
            }
            if q2 < te {
                assert(b[q2 as int] == '=');
                assert(!token_ok(b, i as int));
                return Err(
                    IptablesLineError::MalformedToken {
                        token: body.substring_char(i, te).to_owned(),
                    },
                );
            }
            assert(token_ok(b, i as int));
            let is_src = key_is(body, i, q, 'S', 'R', 'C');
            let is_dst = key_is(body, i, q, 'D', 'S', 'T');
            proof {
                let ii = i as int;
                let tt = te as int;
                assert(token_key(b, ii) == b.subrange(ii, q as int));
                assert(src_key()[0] == 'S' && dst_key()[0] == 'D');
                assert forall|k: int| ii < k < tt implies !is_token_start(b, k) by {
                    assert(b[k - 1] != ' ');
                }
            }
            if is_src {
                src = Some((q + 1, te));
                proof {
                    srcj = i as int;
                }
            } else if is_dst {
                dst = Some((q + 1, te));
                proof {
                    dstj = i as int;
                }
            }
            i = te;
        }
    }
    Ok((src, dst))
}

impl IptablesLogLine {
    /// Extracts the network record from a firewall message body: splits the
    /// rule label off at the first `": "`, tokenizes the remainder into
    /// key=value pairs (the last occurrence of a repeated key wins), and
    /// parses the required `SRC` and `DST` values as IPv4 addresses. Every
    /// violation is a typed failure, never a panic.
    pub fn new(input_string: &str, timestamp: &Timestamp) -> (r: Result<
        IptablesLogLine,
        IptablesLineError,
    >)
        ensures
            r is Ok <==> extract_ok(input_string@),
            r is Ok ==> {
                let rec = r->Ok_0;
                let b = body_of(input_string@);
                &&& rec.timestamp == *timestamp
                &&& rec.log_type@ == label_of(input_string@)
                &&& exists|j: int|
                    last_key_at(b, src_key(), j) && rec.source_ip == ipv4_value(token_value(b, j))
                &&& exists|j: int|
                    last_key_at(b, dst_key(), j) && rec.destination_ip == ipv4_value(
                        token_value(b, j),
                    )
            },
            r is Err ==> extract_err_matches(r->Err_0, input_string@),
    {
        let ghost s = input_string@;
        let n = input_string.unicode_len();
        let mut i: usize = 0;
        while n - i >= 2 && !(input_string.get_char(i) == ':' && input_string.get_char(i + 1)
            == ' ')
            invariant
                i <= n,
                n == s.len(),
                s == input_string@,
                forall|k: int| 0 <= k < i ==> !(#[trigger] s[k] == ':' && s[k + 1] == ' '),
            decreases n - i,
        {
            i = i + 1;
        }
        if n - i < 2 {
            proof {
                lemma_sep_pos_none(s, 0, i as int);
            }
            return Err(IptablesLineError::MissingSeparator { input: input_string.to_owned() });
        }
        proof {
            lemma_sep_pos_found(s, 0, i as int);
        }
        let label = input_string.substring_char(0, i).to_owned();
        let body = input_string.substring_char(i + 2, n);
        let ghost b = body@;
        assert(b == body_of(s));
        let spans = match scan_kv_tokens(body) {
            Ok(sp) => sp,
            Err(e) => { return Err(e); },
        };
        let (vs, ve) = match spans.0 {
            Some(sp) => sp,
            None => {
                proof {
                    reveal_strlit("SRC");
                    assert("SRC"@ =~= src_key());
                }
                return Err(IptablesLineError::MissingKey { key: "SRC".to_owned() });
            },
        };
        let ghost jsrc = choose|j: int|
            last_key_at(b, src_key(), j) && vs == tok_eq_pos(b, j) + 1 && ve == run_end(b, j);
        proof {
            lemma_run_end(b, jsrc);
            crate::scan::lemma_first_eq_before(b, jsrc, run_end(b, jsrc));
        }
        let val = body.substring_char(vs, ve);
        let source_ip = match Ipv4Address::parse(val) {
            Some(a) => a,
            None => {
                proof {
                    reveal_strlit("SRC");
                    assert("SRC"@ =~= src_key());
                    assert(val@ == token_value(b, jsrc));
                    assert(last_key_at(b, src_key(), jsrc) && !ipv4_shape(token_value(b, jsrc)));
                    assert(exists|j: int|
                        last_key_at(b, src_key(), j) && !ipv4_shape(token_value(b, j)));
                    assert(exists|j: int|
                        last_key_at(b, src_key(), j) && val@ == token_value(b, j));
                }
                return Err(
                    IptablesLineError::InvalidAddress {
                        key: "SRC".to_owned(),
                        value: val.to_owned(),
                    },
                );
            },
        };
        proof {
            if exists|j2: int| last_key_at(b, src_key(), j2) && !ipv4_shape(token_value(b, j2)) {
                let j2 = choose|j2: int|
                    last_key_at(b, src_key(), j2) && !ipv4_shape(token_value(b, j2));
                lemma_last_key_unique(b, src_key(), jsrc, j2);
            }
        }
        let (wvs, wve) = match spans.1 {
            Some(sp) => sp,
            None => {
                proof {
                    reveal_strlit("DST");
                    assert("DST"@ =~= dst_key());
                }
                return Err(IptablesLineError::MissingKey { key: "DST".to_owned() });
            },
        };
        let ghost jdst = choose|j: int|
            last_key_at(b, dst_key(), j) && wvs == tok_eq_pos(b, j) + 1 && wve == run_end(b, j);
        proof {
            lemma_run_end(b, jdst);
            crate::scan::lemma_first_eq_before(b, jdst, run_end(b, jdst));
        }
        let wval = body.substring_char(wvs, wve);
        let destination_ip = match Ipv4Address::parse(wval) {
            Some(a) => a,
            None => {
                proof {
                    reveal_strlit("DST");
                    assert("DST"@ =~= dst_key());
                    assert(wval@ == token_value(b, jdst));
                    assert(last_key_at(b, dst_key(), jdst) && !ipv4_shape(token_value(b, jdst)));
                    assert(exists|j: int|
                        last_key_at(b, dst_key(), j) && wval@ == token_value(b, j));
                }
                return Err(
                    IptablesLineError::InvalidAddress {
                        key: "DST".to_owned(),
                        value: wval.to_owned(),
                    },
                );
            },
        };
        Ok(
            IptablesLogLine {
                timestamp: timestamp.clone(),
                source_ip,
                destination_ip,
                log_type: label,
            },
        )
    }
}

} // verus!
