//! Pipeline step arguments: the JSON values a step's `args` map holds, and
//! the readers that turn one argument into a typed option or an error.

use vstd::prelude::*;
use crate::asset::{
    i32_pair, parse_i32_pair_text, IntTextError, SceneAssetDefringeMode,
    int_text_value, parse_hex_byte, SceneAssetBackgroundSample, SceneAssetColorChannel, SceneAssetDrawShapeKind,
    SceneAssetEditError, SceneAssetMaskPreviewMode, SceneAssetPadAnchor, SceneAssetResampleFilter,
};
use crate::conditions::{first_from, first_index, lemma_first_index};
use crate::text::{chars_of, string_from_chars, trim, trim_seq, str_equal, push_char};

verus! {

/// A JSON number as the argument readers see it: an integer that fits
/// `u64`, a negative integer that fits `i64`, or any other number.
#[derive(Debug, Clone, Copy, PartialEq, Eq, Structural)]
pub enum SceneAssetArgNumber {
    PosInt(u64),
    NegInt(i64),
    Float,
}

/// One value of a step's `args` map, as parsed from JSON.
#[derive(Debug)]
pub enum SceneAssetArgValue {
    Null,
    Bool(bool),
    Number(SceneAssetArgNumber),
    Text(String),
    List(Vec<SceneAssetArgValue>),
    Fields(Vec<(String, SceneAssetArgValue)>),
}

/// The names of the entries.
pub open spec fn arg_names(args: Seq<(String, SceneAssetArgValue)>) -> Seq<Seq<char>> {
    args.map_values(|e: (String, SceneAssetArgValue)| e.0@)
}

pub open spec fn text_is(key: Seq<char>) -> spec_fn(Seq<char>) -> bool {
    |n: Seq<char>| n == key
}

/// `key` with every `_` written as `-`.
pub open spec fn kebab(key: Seq<char>) -> Seq<char> {
    key.map_values(|c: char| if c == '_' { '-' } else { c })
}

/// Where the argument `key` is found: the first entry named `key`, else the
/// first named its kebab-case form, else past the end.
pub open spec fn arg_position(args: Seq<(String, SceneAssetArgValue)>, key: Seq<char>) -> int {
    let i = first_index(arg_names(args), text_is(key));
    if i < args.len() {
        i
    } else {
        first_index(arg_names(args), text_is(kebab(key)))
    }
}

/// The argument `key`, if present.
pub open spec fn arg_value(args: Seq<(String, SceneAssetArgValue)>, key: Seq<char>) -> Option<SceneAssetArgValue> {
    let i = arg_position(args, key);
    if 0 <= i < args.len() {
        Some(args[i].1)
    } else {
        None
    }
}

pub proof fn lemma_first_from_is<T>(s: Seq<T>, p: spec_fn(T) -> bool, j: int, i: int)
    requires
        0 <= j <= i < s.len(),
        forall|k: int| j <= k < i ==> !p(#[trigger] s[k]),
        p(s[i]),
    ensures
        first_from(s, p, j) == i,
    decreases i - j,
{
    if j < i {
        lemma_first_from_is(s, p, j + 1, i);
    }
}

pub proof fn lemma_first_from_none<T>(s: Seq<T>, p: spec_fn(T) -> bool, j: int)
    requires
        0 <= j <= s.len(),
        forall|k: int| j <= k < s.len() ==> !p(#[trigger] s[k]),
    ensures
        first_from(s, p, j) == s.len(),
    decreases s.len() - j,
{
    if j < s.len() {
        lemma_first_from_none(s, p, j + 1);
    }
}

/// `key` with every `_` written as `-`.
fn kebab_case(key: &str) -> (r: String)
    ensures
        r@ == kebab(key@),
{
    let cs = chars_of(key);
    let mut out: Vec<char> = Vec::new();
    let mut i: usize = 0;
    while i < cs.len()
        invariant
            cs@ == key@,
            i <= cs@.len(),
            out@ =~= kebab(key@).take(i as int),
        decreases cs.len() - i,
    {
        out.push(if cs[i] == '_' { '-' } else { cs[i] });
        i = i + 1;
    }
    proof {
        assert(kebab(key@).take(cs@.len() as int) =~= kebab(key@));
    }
    string_from_chars(out.as_slice())
}

/// The index of the first entry named `key`, or the number of entries.
fn find_entry(args: &[(String, SceneAssetArgValue)], key: &str) -> (i: usize)
    ensures
        i == first_index(arg_names(args@), text_is(key@)),
{
    let ghost names = arg_names(args@);
    let mut i: usize = 0;
    while i < args.len()
        invariant
            names == arg_names(args@),
            i <= args@.len(),
            forall|k: int| 0 <= k < i ==> !text_is(key@)(#[trigger] names[k]),
        decreases args.len() - i,
    {
        if str_equal(args[i].0.as_str(), key) {
            proof {
                assert(text_is(key@)(names[i as int]));
                lemma_first_from_is(names, text_is(key@), 0, i as int);
            }
            return i;
        }
        i = i + 1;
    }
    proof {
        lemma_first_from_none(names, text_is(key@), 0);
    }
    i
}

/// The argument `key`, looked up as written and then in kebab case.
pub fn pipeline_arg<'a>(args: &'a [(String, SceneAssetArgValue)], key: &str) -> (r: Option<&'a SceneAssetArgValue>)
    ensures
        r is None <==> arg_value(args@, key@) is None,
        arg_value(args@, key@) matches Some(v) ==> (r matches Some(rv) && *rv == v),
{
    let i = find_entry(args, key);
    if i < args.len() {
        return Some(&args[i].1);
    }
    let k = kebab_case(key);
    let j = find_entry(args, k.as_str());
    proof {
        lemma_first_index(arg_names(args@), text_is(kebab(key@)));
    }
    if j < args.len() {
        Some(&args[j].1)
    } else {
        None
    }
}

pub open spec fn arg_error(key: Seq<char>, what: Seq<char>) -> Seq<char> {
    "pipeline arg `"@ + key + "` "@ + what
}

pub(crate) fn arg_error_text(key: &str, what: &str) -> (s: String)
    ensures
        s@ == arg_error(key@, what@),
{
    let mut s = String::from_str("pipeline arg `");
    s.append(key);
    s.append("` ");
    s.append(what);
    s
}

/// The string argument `key`: absent, or an error when it is not a string.
pub open spec fn string_arg(args: Seq<(String, SceneAssetArgValue)>, key: Seq<char>) -> Result<Option<Seq<char>>, Seq<char>> {
    match arg_value(args, key) {
        None => Ok(None),
        Some(SceneAssetArgValue::Text(t)) => Ok(Some(t@)),
        Some(_) => Err(arg_error(key, "must be a string"@)),
    }
}

/// The library's error for a message of an argument reader.
pub open spec fn invalid(r: Result<(), Seq<char>>, e: SceneAssetEditError) -> bool {
    r matches Err(m) && e matches SceneAssetEditError::InvalidOperation(em) && em@ == m
}

/// Reads the string argument `key`.
pub fn pipeline_string_arg(args: &[(String, SceneAssetArgValue)], key: &str) -> (r: Result<Option<String>, SceneAssetEditError>)
    ensures
        match string_arg(args@, key@) {
            Ok(None) => r matches Ok(None),
            Ok(Some(t)) => r matches Ok(Some(rt)) && rt@ == t,
            Err(m) => r matches Err(SceneAssetEditError::InvalidOperation(rm)) && rm@ == m,
        },
{
    match pipeline_arg(args, key) {
        None => Ok(None),
        Some(SceneAssetArgValue::Text(t)) => Ok(Some(t.clone())),
        Some(_) => Err(SceneAssetEditError::InvalidOperation(arg_error_text(key, "must be a string"))),
    }
}

pub open spec fn is_comma(c: char) -> bool {
    c == ','
}

pub open spec fn comma_pred() -> spec_fn(char) -> bool {
    |c: char| is_comma(c)
}

/// The trimmed, non-empty pieces of a comma-separated list.
pub open spec fn list_items(s: Seq<char>) -> Seq<Seq<char>>
    decreases s.len(),
{
    let i = first_index(s, comma_pred());
    if 0 <= i < s.len() {
        let head = trim_seq(s.take(i));
        let rest = list_items(s.skip(i + 1));
        if head.len() > 0 {
            seq![head] + rest
        } else {
            rest
        }
    } else {
        let head = trim_seq(s);
        if head.len() > 0 {
            seq![head]
        } else {
            seq![]
        }
    }
}

/// The trimmed, non-empty pieces of a comma-separated list, in order.
pub fn split_list(text: &str) -> (r: Vec<String>)
    ensures
        r@.map_values(|x: String| x@) == list_items(text@),
{
    let cs = chars_of(text);
    let n = cs.len();
    let ghost s = text@;
    let ghost comma = comma_pred();
    let mut out: Vec<String> = Vec::new();
    let mut piece: Vec<char> = Vec::new();
    let mut start: usize = 0;
    let mut i: usize = 0;
    proof {
        assert(s.skip(0) =~= s);
        assert(out@.map_values(|x: String| x@) =~= Seq::<Seq<char>>::empty());
        assert(out@.map_values(|x: String| x@) + list_items(s.skip(0)) =~= list_items(s));
    }
    while i < n
        invariant
            comma == comma_pred(),
            cs@ == s,
            n == s.len(),
            start <= i <= n,
            piece@ == s.subrange(start as int, i as int),
            forall|k: int| start <= k < i ==> s[k] != ',',
            out@.map_values(|x: String| x@) + list_items(s.skip(start as int)) == list_items(s),
        decreases n - i,
    {
        if cs[i] == ',' {
            let ghost sub = s.skip(start as int);
            proof {
                assert forall|k: int| 0 <= k < i - start implies !comma(#[trigger] sub[k]) by {
                    assert(sub[k] == s[start + k]);
                    assert(!is_comma(sub[k]));
                }
                assert(sub[i - start] == s[i as int]);
                assert(is_comma(sub[i - start]));
                assert(comma(sub[i - start]));
                lemma_first_from_is(sub, comma, 0, i - start);
                assert(sub.take(i - start) =~= piece@);
                assert(sub.skip(i - start + 1) =~= s.skip(i + 1));
            }
            let p = string_from_chars(piece.as_slice());
            let t = trim(p.as_str());
            let ghost before = out@;
            if chars_of(t.as_str()).len() > 0 {
                out.push(t);
                proof {
                    assert(out@.map_values(|x: String| x@) =~= before.map_values(|x: String| x@).push(trim_seq(piece@)));
                    assert(out@.map_values(|x: String| x@) + list_items(s.skip(i + 1)) =~= before.map_values(
                        |x: String| x@,
                    ) + list_items(sub));
                }
            } else {
                proof {
                    assert(t@.len() == 0);
                }
            }
            piece = Vec::new();
            start = i + 1;
        } else {
            piece.push(cs[i]);
        }
        i = i + 1;
    }
    let ghost sub = s.skip(start as int);
    proof {
        assert forall|k: int| 0 <= k < sub.len() implies !comma(#[trigger] sub[k]) by {
            assert(sub[k] == s[start + k]);
            assert(!is_comma(sub[k]));
        }
        lemma_first_from_none(sub, comma, 0);
        assert(sub =~= piece@);
    }
    let p = string_from_chars(piece.as_slice());
    let t = trim(p.as_str());
    let ghost before = out@;
    if chars_of(t.as_str()).len() > 0 {
        out.push(t);
        proof {
            assert(out@.map_values(|x: String| x@) =~= before.map_values(|x: String| x@).push(trim_seq(piece@)));
        }
    }
    proof {
        assert(out@.map_values(|x: String| x@) =~= list_items(s));
    }
    out
}

/// The text of each value when all are strings.
pub open spec fn all_texts(vs: Seq<SceneAssetArgValue>) -> bool {
    forall|k: int| 0 <= k < vs.len() ==> #[trigger] vs[k] is Text
}

pub open spec fn text_of(v: SceneAssetArgValue) -> Seq<char> {
    match v {
        SceneAssetArgValue::Text(t) => t@,
        _ => seq![],
    }
}

/// The string-list argument `key`: a comma-separated string or an array of
/// strings; absent is empty.
pub open spec fn string_list_arg(args: Seq<(String, SceneAssetArgValue)>, key: Seq<char>) -> Result<Seq<Seq<char>>, Seq<char>> {
    match arg_value(args, key) {
        None => Ok(seq![]),
        Some(SceneAssetArgValue::Text(t)) => Ok(list_items(t@)),
        Some(SceneAssetArgValue::List(vs)) => if all_texts(vs@) {
            Ok(vs@.map_values(|v: SceneAssetArgValue| text_of(v)))
        } else {
            Err(arg_error(key, "entries must be strings"@))
        },
        Some(_) => Err(arg_error(key, "must be a string or string array"@)),
    }
}

/// Reads the string-list argument `key`.
pub fn pipeline_string_list_arg(args: &[(String, SceneAssetArgValue)], key: &str) -> (r: Result<Vec<String>, SceneAssetEditError>)
    ensures
        match string_list_arg(args@, key@) {
            Ok(items) => r matches Ok(v) && v@.map_values(|x: String| x@) == items,
            Err(m) => r matches Err(SceneAssetEditError::InvalidOperation(rm)) && rm@ == m,
        },
{
    match pipeline_arg(args, key) {
        None => Ok(Vec::new()),
        Some(SceneAssetArgValue::Text(t)) => Ok(split_list(t.as_str())),
        Some(SceneAssetArgValue::List(vs)) => {
            let mut out: Vec<String> = Vec::new();
            let mut k: usize = 0;
            while k < vs.len()
                invariant
                    arg_value(args@, key@) matches Some(SceneAssetArgValue::List(w)) && w@ == vs@,
                    k <= vs@.len(),
                    forall|j: int| 0 <= j < k ==> #[trigger] vs@[j] is Text,
                    out@.map_values(|x: String| x@) =~= vs@.take(k as int).map_values(|v: SceneAssetArgValue| text_of(v)),
                decreases vs.len() - k,
            {
                match &vs[k] {
                    SceneAssetArgValue::Text(t) => {
                        let ghost before = out@;
                        out.push(t.clone());
                        proof {
                            assert(vs@.take(k + 1) =~= vs@.take(k as int).push(vs@[k as int]));
                            assert(out@.map_values(|x: String| x@) =~= before.map_values(|x: String| x@).push(t@));
                        }
                    },
                    _ => {
                        proof {
                            assert(!(vs@[k as int] is Text));
                            assert(!all_texts(vs@));
                        }
                        return Err(SceneAssetEditError::InvalidOperation(arg_error_text(key, "entries must be strings")));
                    },
                }
                k = k + 1;
            }
            proof {
                assert(vs@.take(vs@.len() as int) =~= vs@);
            }
            Ok(out)
        },
        Some(_) => Err(SceneAssetEditError::InvalidOperation(arg_error_text(key, "must be a string or string array"))),
    }
}

/// The value as a `u64`, as `serde_json::Value::as_u64` reads it.
pub open spec fn as_u64(v: SceneAssetArgValue) -> Option<u64> {
    match v {
        SceneAssetArgValue::Number(SceneAssetArgNumber::PosInt(n)) => Some(n),
        _ => None,
    }
}

/// An unsigned argument with a default and an upper bound `hi`; `what`
/// names the bound's type in the error.
pub open spec fn bounded_arg(
    args: Seq<(String, SceneAssetArgValue)>,
    key: Seq<char>,
    default: int,
    hi: int,
    what: Seq<char>,
) -> Result<int, Seq<char>> {
    match arg_value(args, key) {
        None => Ok(default),
        Some(v) => match as_u64(v) {
            None => Err(arg_error(key, "must be a number"@)),
            Some(n) => if n <= hi {
                Ok(n as int)
            } else {
                Err(arg_error(key, "must fit in "@ + what))
            },
        },
    }
}

fn bounded_arg_value(args: &[(String, SceneAssetArgValue)], key: &str, default: u64, hi: u64, what: &str) -> (r: Result<u64, SceneAssetEditError>)
    requires
        default <= hi,
    ensures
        match bounded_arg(args@, key@, default as int, hi as int, what@) {
            Ok(n) => r == Ok::<u64, SceneAssetEditError>(n as u64),
            Err(m) => r matches Err(SceneAssetEditError::InvalidOperation(rm)) && rm@ == m,
        },
{
    match pipeline_arg(args, key) {
        None => Ok(default),
        Some(SceneAssetArgValue::Number(SceneAssetArgNumber::PosInt(n))) => {
            if *n <= hi {
                Ok(*n)
            } else {
                let mut m = String::from_str("must fit in ");
                m.append(what);
                Err(SceneAssetEditError::InvalidOperation(arg_error_text(key, m.as_str())))
            }
        },
        Some(_) => Err(SceneAssetEditError::InvalidOperation(arg_error_text(key, "must be a number"))),
    }
}

/// Reads the `u8` argument `key`, `default` when absent.
pub fn pipeline_u8_arg(args: &[(String, SceneAssetArgValue)], key: &str, default: u8) -> (r: Result<u8, SceneAssetEditError>)
    ensures
        match bounded_arg(args@, key@, default as int, u8::MAX as int, "u8"@) {
            Ok(n) => r == Ok::<u8, SceneAssetEditError>(n as u8),
            Err(m) => r matches Err(SceneAssetEditError::InvalidOperation(rm)) && rm@ == m,
        },
{
    match bounded_arg_value(args, key, default as u64, 255, "u8") {
        Ok(n) => Ok(n as u8),
        Err(e) => Err(e),
    }
}

/// Reads the `u32` argument `key`, `default` when absent.
pub fn pipeline_u32_arg(args: &[(String, SceneAssetArgValue)], key: &str, default: u32) -> (r: Result<u32, SceneAssetEditError>)
    ensures
        match bounded_arg(args@, key@, default as int, u32::MAX as int, "u32"@) {
            Ok(n) => r == Ok::<u32, SceneAssetEditError>(n as u32),
            Err(m) => r matches Err(SceneAssetEditError::InvalidOperation(rm)) && rm@ == m,
        },
{
    match bounded_arg_value(args, key, default as u64, 0xffff_ffff, "u32") {
        Ok(n) => Ok(n as u32),
        Err(e) => Err(e),
    }
}

/// Reads the `usize` argument `key`, `default` when absent.
pub fn pipeline_usize_arg(args: &[(String, SceneAssetArgValue)], key: &str, default: usize) -> (r: Result<usize, SceneAssetEditError>)
    ensures
        match bounded_arg(args@, key@, default as int, usize::MAX as int, "usize"@) {
            Ok(n) => r == Ok::<usize, SceneAssetEditError>(n as usize),
            Err(m) => r matches Err(SceneAssetEditError::InvalidOperation(rm)) && rm@ == m,
        },
{
    let hi: u64 = if usize::MAX as u64 <= u64::MAX { usize::MAX as u64 } else { u64::MAX };
    match bounded_arg_value(args, key, default as u64, hi, "usize") {
        Ok(n) => Ok(n as usize),
        Err(e) => Err(e),
    }
}

/// Reads the `u32` argument `key`, which must be present.
pub fn pipeline_u32_required_arg(args: &[(String, SceneAssetArgValue)], key: &str) -> (r: Result<u32, SceneAssetEditError>)
    ensures
        arg_value(args@, key@) is None ==> (r matches Err(SceneAssetEditError::InvalidOperation(rm)) && rm@
            == arg_error(key@, "is required"@)),
        arg_value(args@, key@) is Some ==> match bounded_arg(args@, key@, 0, u32::MAX as int, "u32"@) {
            Ok(n) => r == Ok::<u32, SceneAssetEditError>(n as u32),
            Err(m) => r matches Err(SceneAssetEditError::InvalidOperation(rm)) && rm@ == m,
        },
{
    if pipeline_arg(args, key).is_none() {
        return Err(SceneAssetEditError::InvalidOperation(arg_error_text(key, "is required")));
    }
    pipeline_u32_arg(args, key, 0)
}

/// The boolean argument `key`, `default` when absent.
pub open spec fn bool_arg(args: Seq<(String, SceneAssetArgValue)>, key: Seq<char>, default: bool) -> Result<bool, Seq<char>> {
    match arg_value(args, key) {
        None => Ok(default),
        Some(SceneAssetArgValue::Bool(b)) => Ok(b),
        Some(_) => Err(arg_error(key, "must be a boolean"@)),
    }
}

/// Reads the boolean argument `key`.
pub fn pipeline_bool_arg(args: &[(String, SceneAssetArgValue)], key: &str, default: bool) -> (r: Result<bool, SceneAssetEditError>)
    ensures
        match bool_arg(args@, key@, default) {
            Ok(b) => r == Ok::<bool, SceneAssetEditError>(b),
            Err(m) => r matches Err(SceneAssetEditError::InvalidOperation(rm)) && rm@ == m,
        },
{
    match pipeline_arg(args, key) {
        None => Ok(default),
        Some(SceneAssetArgValue::Bool(b)) => Ok(*b),
        Some(_) => Err(SceneAssetEditError::InvalidOperation(arg_error_text(key, "must be a boolean"))),
    }
}

// ---------------------------------------------------------------- colours

/// The hexadecimal digits of a colour: trimmed, without one leading `#`.
pub open spec fn hex_part(color: Seq<char>) -> Seq<char> {
    let t = trim_seq(color);
    if t.len() > 0 && t[0] == '#' {
        t.skip(1)
    } else {
        t
    }
}

pub open spec fn ascii_text(s: Seq<char>) -> bool {
    forall|i: int| 0 <= i < s.len() ==> (#[trigger] s[i] as u32) < 128
}

/// The byte written by the two digits at `k`.
pub open spec fn hex_byte_at(h: Seq<char>, k: int) -> Result<int, IntTextError> {
    int_text_value(h.subrange(k, k + 2), 16, false, 0, 255)
}

/// The colour `#RRGGBB` or `#RRGGBBAA` (the `#` optional, alpha 255 when
/// left out) names, or `None` when the text is no such colour.
pub open spec fn rgba_of(color: Seq<char>) -> Option<Seq<u8>> {
    let h = hex_part(color);
    if !ascii_text(h) || (h.len() != 6 && h.len() != 8) {
        None
    } else {
        match (
            hex_byte_at(h, 0),
            hex_byte_at(h, 2),
            hex_byte_at(h, 4),
            if h.len() == 8 { hex_byte_at(h, 6) } else { Ok(255) },
        ) {
            (Ok(r), Ok(g), Ok(b), Ok(a)) => Some(seq![r as u8, g as u8, b as u8, a as u8]),
            _ => None,
        }
    }
}

fn two_chars(cs: &Vec<char>, k: usize) -> (s: String)
    requires
        k + 2 <= cs@.len(),
    ensures
        s@ == cs@.subrange(k as int, k + 2),
{
    let n = cs.len();
    assert(k + 1 < n);
    let mut v: Vec<char> = Vec::new();
    v.push(cs[k]);
    v.push(cs[k + 1]);
    proof {
        assert(v@ =~= cs@.subrange(k as int, k + 2));
    }
    string_from_chars(v.as_slice())
}

/// Reads a colour written `#RRGGBB` or `#RRGGBBAA`; anything else is an
/// invalid colour.
pub fn parse_rgba(color: &str) -> (r: Result<[u8; 4], SceneAssetEditError>)
    ensures
        match rgba_of(color@) {
            Some(v) => r matches Ok(c) && c@ == v,
            None => r matches Err(SceneAssetEditError::InvalidColor(c)) && c@ == color@,
        },
{
    let t = trim(color);
    let all = chars_of(t.as_str());
    let mut cs: Vec<char> = Vec::new();
    let start: usize = if all.len() > 0 && all[0] == '#' { 1 } else { 0 };
    let mut k: usize = start;
    while k < all.len()
        invariant
            start <= k <= all@.len(),
            cs@ =~= all@.subrange(start as int, k as int),
        decreases all.len() - k,
    {
        cs.push(all[k]);
        k = k + 1;
    }
    let ghost h = hex_part(color@);
    proof {
        assert(cs@ =~= h);
    }
    let mut i: usize = 0;
    while i < cs.len()
        invariant
            cs@ == h,
            h == hex_part(color@),
            i <= cs@.len(),
            forall|j: int| 0 <= j < i ==> (#[trigger] cs@[j] as u32) < 128,
        decreases cs.len() - i,
    {
        if (cs[i] as u32) >= 128 {
            proof {
                assert(h[i as int] == cs@[i as int]);
                assert(!ascii_text(h));
            }
            return Err(SceneAssetEditError::InvalidColor(String::from_str(color)));
        }
        i = i + 1;
    }
    let n = cs.len();
    if n != 6 && n != 8 {
        return Err(SceneAssetEditError::InvalidColor(String::from_str(color)));
    }
    let rt = two_chars(&cs, 0);
    let rv = match parse_hex_byte(color, rt.as_str()) {
        Ok(v) => v,
        Err(e) => return Err(e),
    };
    let gt = two_chars(&cs, 2);
    let gv = match parse_hex_byte(color, gt.as_str()) {
        Ok(v) => v,
        Err(e) => return Err(e),
    };
    let bt = two_chars(&cs, 4);
    let bv = match parse_hex_byte(color, bt.as_str()) {
        Ok(v) => v,
        Err(e) => return Err(e),
    };
    let av: u8 = if n == 8 {
        let at = two_chars(&cs, 6);
        match parse_hex_byte(color, at.as_str()) {
            Ok(v) => v,
            Err(e) => return Err(e),
        }
    } else {
        255
    };
    let c = [rv, gv, bv, av];
    proof {
        assert(c@ =~= rgba_of(color@)->0);
    }
    Ok(c)
}

/// Reads the colour argument `key`, which must be present.
pub fn pipeline_color_arg(args: &[(String, SceneAssetArgValue)], key: &str) -> (r: Result<[u8; 4], SceneAssetEditError>)
    ensures
        match string_arg(args@, key@) {
            Err(m) => r matches Err(SceneAssetEditError::InvalidOperation(rm)) && rm@ == m,
            Ok(None) => r matches Err(SceneAssetEditError::InvalidOperation(rm)) && rm@ == arg_error(key@, "is required"@),
            Ok(Some(c)) => match rgba_of(c) {
                Some(v) => r matches Ok(rc) && rc@ == v,
                None => r matches Err(SceneAssetEditError::InvalidColor(rc)) && rc@ == c,
            },
        },
{
    match pipeline_string_arg(args, key) {
        Err(e) => Err(e),
        Ok(None) => Err(SceneAssetEditError::InvalidOperation(arg_error_text(key, "is required"))),
        Ok(Some(c)) => parse_rgba(c.as_str()),
    }
}

/// Reads the colour argument `key`, `default` when absent.
pub fn pipeline_optional_color_arg(args: &[(String, SceneAssetArgValue)], key: &str, default: [u8; 4]) -> (r: Result<[u8; 4], SceneAssetEditError>)
    ensures
        match string_arg(args@, key@) {
            Err(m) => r matches Err(SceneAssetEditError::InvalidOperation(rm)) && rm@ == m,
            Ok(None) => r == Ok::<[u8; 4], SceneAssetEditError>(default),
            Ok(Some(c)) => match rgba_of(c) {
                Some(v) => r matches Ok(rc) && rc@ == v,
                None => r matches Err(SceneAssetEditError::InvalidColor(rc)) && rc@ == c,
            },
        },
{
    match pipeline_string_arg(args, key) {
        Err(e) => Err(e),
        Ok(None) => Ok(default),
        Ok(Some(c)) => parse_rgba(c.as_str()),
    }
}

// ---------------------------------------------------------------- choices

/// The string argument `key`, or `default` when absent.
pub open spec fn choice_text(args: Seq<(String, SceneAssetArgValue)>, key: Seq<char>, default: Seq<char>) -> Result<Seq<char>, Seq<char>> {
    match string_arg(args, key) {
        Err(m) => Err(m),
        Ok(None) => Ok(default),
        Ok(Some(t)) => Ok(t),
    }
}

fn choice_value(args: &[(String, SceneAssetArgValue)], key: &str, default: &str) -> (r: Result<String, SceneAssetEditError>)
    ensures
        match choice_text(args@, key@, default@) {
            Ok(t) => r matches Ok(rt) && rt@ == t,
            Err(m) => r matches Err(SceneAssetEditError::InvalidOperation(rm)) && rm@ == m,
        },
{
    match pipeline_string_arg(args, key) {
        Err(e) => Err(e),
        Ok(None) => Ok(String::from_str(default)),
        Ok(Some(t)) => Ok(t),
    }
}

/// The error for a value that names no choice of argument `key`.
pub open spec fn bad_choice(key: Seq<char>, value: Seq<char>, tail: Seq<char>) -> Seq<char> {
    "pipeline arg `"@ + key + "` value `"@ + value + "` is invalid"@ + tail
}

fn bad_choice_text(key: &str, value: &str, tail: &str) -> (s: String)
    ensures
        s@ == bad_choice(key@, value@, tail@),
{
    let mut s = String::from_str("pipeline arg `");
    s.append(key);
    s.append("` value `");
    s.append(value);
    s.append("` is invalid");
    s.append(tail);
    s
}

pub open spec fn background_sample_named(t: Seq<char>) -> Option<SceneAssetBackgroundSample> {
    if t == "corners"@ {
        Some(SceneAssetBackgroundSample::Corners)
    } else if t == "edges"@ {
        Some(SceneAssetBackgroundSample::Edges)
    } else {
        None
    }
}

/// Reads the background sampling argument `key`: `corners` (the default)
/// or `edges`.
pub fn pipeline_background_sample_arg(args: &[(String, SceneAssetArgValue)], key: &str) -> (r: Result<SceneAssetBackgroundSample, SceneAssetEditError>)
    ensures
        match choice_text(args@, key@, "corners"@) {
            Err(m) => r matches Err(SceneAssetEditError::InvalidOperation(rm)) && rm@ == m,
            Ok(t) => match background_sample_named(t) {
                Some(v) => r == Ok::<SceneAssetBackgroundSample, SceneAssetEditError>(v),
                None => r matches Err(SceneAssetEditError::InvalidOperation(rm)) && rm@ == bad_choice(
                    key@,
                    t,
                    "; expected corners or edges"@,
                ),
            },
        },
{
    let t = match choice_value(args, key, "corners") {
        Ok(t) => t,
        Err(e) => return Err(e),
    };
    if str_equal(t.as_str(), "corners") {
        Ok(SceneAssetBackgroundSample::Corners)
    } else if str_equal(t.as_str(), "edges") {
        Ok(SceneAssetBackgroundSample::Edges)
    } else {
        Err(SceneAssetEditError::InvalidOperation(bad_choice_text(key, t.as_str(), "; expected corners or edges")))
    }
}

pub open spec fn pad_anchor_named(t: Seq<char>) -> Option<SceneAssetPadAnchor> {
    if t == "center"@ {
        Some(SceneAssetPadAnchor::Center)
    } else if t == "bottom-center"@ || t == "bottom_center"@ {
        Some(SceneAssetPadAnchor::BottomCenter)
    } else if t == "top-left"@ || t == "top_left"@ {
        Some(SceneAssetPadAnchor::TopLeft)
    } else {
        None
    }
}

/// Reads the `anchor` argument: `center` (the default), `bottom-center` or
/// `top-left` (underscores accepted).
pub fn pipeline_pad_anchor_arg(args: &[(String, SceneAssetArgValue)]) -> (r: Result<SceneAssetPadAnchor, SceneAssetEditError>)
    ensures
        match choice_text(args@, "anchor"@, "center"@) {
            Err(m) => r matches Err(SceneAssetEditError::InvalidOperation(rm)) && rm@ == m,
            Ok(t) => match pad_anchor_named(t) {
                Some(v) => r == Ok::<SceneAssetPadAnchor, SceneAssetEditError>(v),
                None => r matches Err(SceneAssetEditError::InvalidOperation(rm)) && rm@ == bad_choice("anchor"@, t, ""@),
            },
        },
{
    let t = match choice_value(args, "anchor", "center") {
        Ok(t) => t,
        Err(e) => return Err(e),
    };
    let v = t.as_str();
    if str_equal(v, "center") {
        Ok(SceneAssetPadAnchor::Center)
    } else if str_equal(v, "bottom-center") || str_equal(v, "bottom_center") {
        Ok(SceneAssetPadAnchor::BottomCenter)
    } else if str_equal(v, "top-left") || str_equal(v, "top_left") {
        Ok(SceneAssetPadAnchor::TopLeft)
    } else {
        Err(SceneAssetEditError::InvalidOperation(bad_choice_text("anchor", v, "")))
    }
}

pub open spec fn resample_named(t: Seq<char>) -> Option<SceneAssetResampleFilter> {
    if t == "nearest"@ {
        Some(SceneAssetResampleFilter::Nearest)
    } else if t == "lanczos3"@ {
        Some(SceneAssetResampleFilter::Lanczos3)
    } else {
        None
    }
}

/// Reads the `resample` argument: `lanczos3` (the default) or `nearest`.
pub fn pipeline_resample_arg(args: &[(String, SceneAssetArgValue)]) -> (r: Result<SceneAssetResampleFilter, SceneAssetEditError>)
    ensures
        match choice_text(args@, "resample"@, "lanczos3"@) {
            Err(m) => r matches Err(SceneAssetEditError::InvalidOperation(rm)) && rm@ == m,
            Ok(t) => match resample_named(t) {
                Some(v) => r == Ok::<SceneAssetResampleFilter, SceneAssetEditError>(v),
                None => r matches Err(SceneAssetEditError::InvalidOperation(rm)) && rm@ == bad_choice("resample"@, t, ""@),
            },
        },
{
    let t = match choice_value(args, "resample", "lanczos3") {
        Ok(t) => t,
        Err(e) => return Err(e),
    };
    let v = t.as_str();
    if str_equal(v, "nearest") {
        Ok(SceneAssetResampleFilter::Nearest)
    } else if str_equal(v, "lanczos3") {
        Ok(SceneAssetResampleFilter::Lanczos3)
    } else {
        Err(SceneAssetEditError::InvalidOperation(bad_choice_text("resample", v, "")))
    }
}

pub open spec fn channel_named(t: Seq<char>) -> Option<SceneAssetColorChannel> {
    if t == "rgb"@ {
        Some(SceneAssetColorChannel::Rgb)
    } else if t == "r"@ {
        Some(SceneAssetColorChannel::R)
    } else if t == "g"@ {
        Some(SceneAssetColorChannel::G)
    } else if t == "b"@ {
        Some(SceneAssetColorChannel::B)
    } else if t == "a"@ {
        Some(SceneAssetColorChannel::A)
    } else {
        None
    }
}

/// Reads the `channel` argument: `rgb` (the default), `r`, `g`, `b` or `a`.
pub fn pipeline_channel_arg(args: &[(String, SceneAssetArgValue)]) -> (r: Result<SceneAssetColorChannel, SceneAssetEditError>)
    ensures
        match choice_text(args@, "channel"@, "rgb"@) {
            Err(m) => r matches Err(SceneAssetEditError::InvalidOperation(rm)) && rm@ == m,
            Ok(t) => match channel_named(t) {
                Some(v) => r == Ok::<SceneAssetColorChannel, SceneAssetEditError>(v),
                None => r matches Err(SceneAssetEditError::InvalidOperation(rm)) && rm@ == bad_choice("channel"@, t, ""@),
            },
        },
{
    let t = match choice_value(args, "channel", "rgb") {
        Ok(t) => t,
        Err(e) => return Err(e),
    };
    let v = t.as_str();
    if str_equal(v, "rgb") {
        Ok(SceneAssetColorChannel::Rgb)
    } else if str_equal(v, "r") {
        Ok(SceneAssetColorChannel::R)
    } else if str_equal(v, "g") {
        Ok(SceneAssetColorChannel::G)
    } else if str_equal(v, "b") {
        Ok(SceneAssetColorChannel::B)
    } else if str_equal(v, "a") {
        Ok(SceneAssetColorChannel::A)
    } else {
        Err(SceneAssetEditError::InvalidOperation(bad_choice_text("channel", v, "")))
    }
}

pub open spec fn shape_named(t: Seq<char>) -> Option<SceneAssetDrawShapeKind> {
    if t == "rect"@ {
        Some(SceneAssetDrawShapeKind::Rect)
    } else if t == "line"@ {
        Some(SceneAssetDrawShapeKind::Line)
    } else if t == "polygon"@ {
        Some(SceneAssetDrawShapeKind::Polygon)
    } else if t == "ellipse"@ || t == "circle"@ {
        Some(SceneAssetDrawShapeKind::Ellipse)
    } else {
        None
    }
}

/// Reads the `shape` argument: `line` (the default), `rect`, `polygon`, or
/// `ellipse` (also `circle`).
pub fn pipeline_draw_shape_arg(args: &[(String, SceneAssetArgValue)]) -> (r: Result<SceneAssetDrawShapeKind, SceneAssetEditError>)
    ensures
        match choice_text(args@, "shape"@, "line"@) {
            Err(m) => r matches Err(SceneAssetEditError::InvalidOperation(rm)) && rm@ == m,
            Ok(t) => match shape_named(t) {
                Some(v) => r == Ok::<SceneAssetDrawShapeKind, SceneAssetEditError>(v),
                None => r matches Err(SceneAssetEditError::InvalidOperation(rm)) && rm@ == bad_choice("shape"@, t, ""@),
            },
        },
{
    let t = match choice_value(args, "shape", "line") {
        Ok(t) => t,
        Err(e) => return Err(e),
    };
    let v = t.as_str();
    if str_equal(v, "rect") {
        Ok(SceneAssetDrawShapeKind::Rect)
    } else if str_equal(v, "line") {
        Ok(SceneAssetDrawShapeKind::Line)
    } else if str_equal(v, "polygon") {
        Ok(SceneAssetDrawShapeKind::Polygon)
    } else if str_equal(v, "ellipse") || str_equal(v, "circle") {
        Ok(SceneAssetDrawShapeKind::Ellipse)
    } else {
        Err(SceneAssetEditError::InvalidOperation(bad_choice_text("shape", v, "")))
    }
}

pub open spec fn preview_mode_named(t: Seq<char>) -> Option<SceneAssetMaskPreviewMode> {
    if t == "background"@ {
        Some(SceneAssetMaskPreviewMode::Background)
    } else if t == "color-range"@ || t == "color_range"@ {
        Some(SceneAssetMaskPreviewMode::ColorRange)
    } else if t == "magic-add"@ || t == "magic_add"@ {
        Some(SceneAssetMaskPreviewMode::MagicAdd)
    } else if t == "channel-matte"@ || t == "channel_matte"@ {
        Some(SceneAssetMaskPreviewMode::ChannelMatte)
    } else {
        None
    }
}

/// Reads the `selection_mode` argument: `background` (the default),
/// `color-range`, `magic-add` or `channel-matte` (underscores accepted).
pub fn pipeline_mask_preview_mode_arg(args: &[(String, SceneAssetArgValue)]) -> (r: Result<SceneAssetMaskPreviewMode, SceneAssetEditError>)
    ensures
        match choice_text(args@, "selection_mode"@, "background"@) {
            Err(m) => r matches Err(SceneAssetEditError::InvalidOperation(rm)) && rm@ == m,
            Ok(t) => match preview_mode_named(t) {
                Some(v) => r == Ok::<SceneAssetMaskPreviewMode, SceneAssetEditError>(v),
                None => r matches Err(SceneAssetEditError::InvalidOperation(rm)) && rm@ == bad_choice(
                    "selection_mode"@,
                    t,
                    ""@,
                ),
            },
        },
{
    let t = match choice_value(args, "selection_mode", "background") {
        Ok(t) => t,
        Err(e) => return Err(e),
    };
    let v = t.as_str();
    if str_equal(v, "background") {
        Ok(SceneAssetMaskPreviewMode::Background)
    } else if str_equal(v, "color-range") || str_equal(v, "color_range") {
        Ok(SceneAssetMaskPreviewMode::ColorRange)
    } else if str_equal(v, "magic-add") || str_equal(v, "magic_add") {
        Ok(SceneAssetMaskPreviewMode::MagicAdd)
    } else if str_equal(v, "channel-matte") || str_equal(v, "channel_matte") {
        Ok(SceneAssetMaskPreviewMode::ChannelMatte)
    } else {
        Err(SceneAssetEditError::InvalidOperation(bad_choice_text("selection_mode", v, "")))
    }
}

pub open spec fn defringe_named(t: Seq<char>) -> Option<SceneAssetDefringeMode> {
    if t == "none"@ {
        Some(SceneAssetDefringeMode::Off)
    } else if t == "white"@ {
        Some(SceneAssetDefringeMode::White)
    } else {
        None
    }
}

/// Reads the `defringe` argument of the mask polish options: `none` (the
/// default) or `white`.
pub fn pipeline_defringe_arg(args: &[(String, SceneAssetArgValue)]) -> (r: Result<SceneAssetDefringeMode, SceneAssetEditError>)
    ensures
        match choice_text(args@, "defringe"@, "none"@) {
            Err(m) => r matches Err(SceneAssetEditError::InvalidOperation(rm)) && rm@ == m,
            Ok(t) => match defringe_named(t) {
                Some(v) => r == Ok::<SceneAssetDefringeMode, SceneAssetEditError>(v),
                None => r matches Err(SceneAssetEditError::InvalidOperation(rm)) && rm@ == bad_choice("defringe"@, t, ""@),
            },
        },
{
    let t = match choice_value(args, "defringe", "none") {
        Ok(t) => t,
        Err(e) => return Err(e),
    };
    let v = t.as_str();
    if str_equal(v, "none") {
        Ok(SceneAssetDefringeMode::Off)
    } else if str_equal(v, "white") {
        Ok(SceneAssetDefringeMode::White)
    } else {
        Err(SceneAssetEditError::InvalidOperation(bad_choice_text("defringe", v, "")))
    }
}

// ---------------------------------------------------------------- translation

/// The value as an `i64`, as `serde_json::Value::as_i64` reads it.
pub open spec fn as_i64(v: SceneAssetArgValue) -> Option<i64> {
    match v {
        SceneAssetArgValue::Number(SceneAssetArgNumber::PosInt(n)) => if n <= i64::MAX {
            Some(n as i64)
        } else {
            None
        },
        SceneAssetArgValue::Number(SceneAssetArgNumber::NegInt(n)) => Some(n),
        _ => None,
    }
}

/// The `translate` argument: `X,Y` text or a two-number array (each taken
/// as `i64` and cut to `i32`); `(0, 0)` when absent.
pub open spec fn translate_arg(args: Seq<(String, SceneAssetArgValue)>) -> Result<(i32, i32), Seq<char>> {
    match arg_value(args, "translate"@) {
        None => Ok((0i32, 0i32)),
        Some(SceneAssetArgValue::Text(t)) => match i32_pair(t@, "translate"@) {
            Ok((x, y)) => Ok((x as i32, y as i32)),
            Err(m) => Err(m),
        },
        Some(SceneAssetArgValue::List(vs)) => if vs@.len() == 2 {
            match (as_i64(vs@[0]), as_i64(vs@[1])) {
                (None, _) => Err("pipeline translate x must be a number"@),
                (Some(_), None) => Err("pipeline translate y must be a number"@),
                (Some(x), Some(y)) => Ok((x as i32, y as i32)),
            }
        } else {
            Err("pipeline translate must be `X,Y` or [X,Y]"@)
        },
        Some(_) => Err("pipeline translate must be `X,Y` or [X,Y]"@),
    }
}

fn value_i64(v: &SceneAssetArgValue) -> (r: Option<i64>)
    ensures
        r == as_i64(*v),
{
    match v {
        SceneAssetArgValue::Number(SceneAssetArgNumber::PosInt(n)) => {
            if *n <= 0x7fff_ffff_ffff_ffff {
                Some(*n as i64)
            } else {
                None
            }
        },
        SceneAssetArgValue::Number(SceneAssetArgNumber::NegInt(n)) => Some(*n),
        _ => None,
    }
}

/// Reads the `translate` argument.
pub fn pipeline_translate_arg(args: &[(String, SceneAssetArgValue)]) -> (r: Result<(i32, i32), SceneAssetEditError>)
    ensures
        match translate_arg(args@) {
            Ok(p) => r == Ok::<(i32, i32), SceneAssetEditError>(p),
            Err(m) => r matches Err(SceneAssetEditError::InvalidOperation(rm)) && rm@ == m,
        },
{
    match pipeline_arg(args, "translate") {
        None => Ok((0, 0)),
        Some(SceneAssetArgValue::Text(t)) => parse_i32_pair_text(t.as_str(), "translate"),
        Some(SceneAssetArgValue::List(vs)) => {
            if vs.len() != 2 {
                return Err(SceneAssetEditError::InvalidOperation(String::from_str("pipeline translate must be `X,Y` or [X,Y]")));
            }
            let x = match value_i64(&vs[0]) {
                Some(x) => x,
                None => {
                    return Err(SceneAssetEditError::InvalidOperation(String::from_str("pipeline translate x must be a number")));
                },
            };
            let y = match value_i64(&vs[1]) {
                Some(y) => y,
                None => {
                    return Err(SceneAssetEditError::InvalidOperation(String::from_str("pipeline translate y must be a number")));
                },
            };
            Ok((x as i32, y as i32))
        },
        Some(_) => Err(SceneAssetEditError::InvalidOperation(String::from_str("pipeline translate must be `X,Y` or [X,Y]"))),
    }
}

// ---------------------------------------------------------------- region names

pub open spec fn unknown_in(names: Seq<Seq<char>>) -> spec_fn(Seq<char>) -> bool {
    |r: Seq<char>| !names.contains(r)
}

/// Checks that every named region exists in the feature map, whose region
/// names are `map_regions` (`None` when no feature map was given): no
/// regions pass; regions without a map, or a region the map lacks (the
/// first such), are errors.
pub fn validate_pipeline_region_names(map_regions: Option<&[String]>, regions: &[String]) -> (r: Result<(), SceneAssetEditError>)
    ensures
        regions@.len() == 0 ==> r is Ok,
        regions@.len() > 0 && map_regions is None ==> (r matches Err(SceneAssetEditError::InvalidOperation(m)) && m@
            == "feature map is required when using named regions"@),
        regions@.len() > 0 ==> (map_regions matches Some(names) ==> {
            let views = names@.map_values(|n: String| n@);
            let rs = regions@.map_values(|n: String| n@);
            let i = first_index(rs, unknown_in(views));
            &&& i < rs.len() ==> (r matches Err(SceneAssetEditError::UnknownRegion(u)) && u@ == rs[i])
            &&& i >= rs.len() ==> r is Ok
        }),
{
    if regions.len() == 0 {
        return Ok(());
    }
    let names = match map_regions {
        None => {
            return Err(SceneAssetEditError::InvalidOperation(
                String::from_str("feature map is required when using named regions"),
            ));
        },
        Some(names) => names,
    };
    let ghost views = names@.map_values(|n: String| n@);
    let ghost rs = regions@.map_values(|n: String| n@);
    let mut i: usize = 0;
    while i < regions.len()
        invariant
            map_regions == Some(names),
            regions@.len() > 0,
            views == names@.map_values(|n: String| n@),
            rs == regions@.map_values(|n: String| n@),
            i <= regions@.len(),
            forall|k: int| 0 <= k < i ==> !unknown_in(views)(#[trigger] rs[k]),
        decreases regions.len() - i,
    {
        let mut found = false;
        let mut j: usize = 0;
        while j < names.len()
            invariant
                views == names@.map_values(|n: String| n@),
                rs == regions@.map_values(|n: String| n@),
                i < regions@.len(),
                j <= names@.len(),
                found == exists|k: int| 0 <= k < j && views[k] == rs[i as int],
            decreases names.len() - j,
        {
            let same = str_equal(names[j].as_str(), regions[i].as_str());
            proof {
                assert(views[j as int] == names@[j as int]@);
                assert(rs[i as int] == regions@[i as int]@);
            }
            if same {
                found = true;
            }
            proof {
                if found {
                    if same {
                        assert(views[j as int] == rs[i as int]);
                    } else {
                        let k = choose|k: int| 0 <= k < j && views[k] == rs[i as int];
                        assert(0 <= k < j + 1 && views[k] == rs[i as int]);
                    }
                } else {
                    assert forall|k: int| 0 <= k < j + 1 implies views[k] != rs[i as int] by {
                        if k == j {
                            assert(!same);
                        }
                    }
                }
            }
            j = j + 1;
        }
        proof {
            if found {
                let k = choose|k: int| 0 <= k < j && views[k] == rs[i as int];
                assert(views.contains(rs[i as int]));
            } else {
                assert(!views.contains(rs[i as int]));
            }
        }
        if !found {
            proof {
                assert(unknown_in(views)(rs[i as int]));
                crate::pipeline_args::lemma_first_from_is(rs, unknown_in(views), 0, i as int);
            }
            return Err(SceneAssetEditError::UnknownRegion(regions[i].clone()));
        }
        i = i + 1;
    }
    proof {
        lemma_first_from_none(rs, unknown_in(views), 0);
    }
    Ok(())
}

} // verus!
