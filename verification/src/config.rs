//! How the presentation side is configured: window geometry, spacing, and
//! the display duration, with a verified parser for the configuration text.
use vstd::prelude::*;

use crate::error::ConfigError;

verus! {

/// Configures how notifications are rendered.
#[derive(Debug)]
pub struct Config {
    /// Width of notification windows.
    pub width: i32,
    /// Height of the notification's embedded image (if present).
    pub image_height: i32,
    /// Space between the notification and the screen's right border.
    pub padding_x: i32,
    /// Space between the first notification and the screen's top border.
    pub padding_y: i32,
    /// How long a window shows before it is closed, in milliseconds.
    pub duration_ms: u64,
    /// Vertical space between stacked notifications.
    pub notification_spacing: i32,
    /// Height of the icon displayed beside a notification.
    pub icon_height: i32,
    /// Path of the theme file, relative to the configuration directory.
    pub theme_path: String,
}

/// The mathematical value of a [`Config`].
#[verifier::ext_equal]
pub struct ConfigV {
    pub width: int,
    pub image_height: int,
    pub padding_x: int,
    pub padding_y: int,
    pub duration_ms: int,
    pub notification_spacing: int,
    pub icon_height: int,
    pub theme_path: Seq<char>,
}

impl View for Config {
    type V = ConfigV;

    open spec fn view(&self) -> ConfigV {
        ConfigV {
            width: self.width as int,
            image_height: self.image_height as int,
            padding_x: self.padding_x as int,
            padding_y: self.padding_y as int,
            duration_ms: self.duration_ms as int,
            notification_spacing: self.notification_spacing as int,
            icon_height: self.icon_height as int,
            theme_path: self.theme_path@,
        }
    }
}

impl Config {
    /// Geometry values the placement arithmetic relies on are non-negative.
    pub open spec fn wf(&self) -> bool {
        &&& 0 <= self.width
        &&& 0 <= self.image_height
        &&& 0 <= self.padding_x
        &&& 0 <= self.padding_y
        &&& 0 <= self.notification_spacing
        &&& 0 <= self.icon_height
    }
}

/// The configuration used when no file overrides it.
pub open spec fn spec_default_config() -> ConfigV {
    ConfigV {
        width: 300,
        image_height: 64,
        padding_x: 0,
        padding_y: 0,
        duration_ms: 3000,
        notification_spacing: 10,
        icon_height: 64,
        theme_path: "style.css"@,
    }
}

impl Default for Config {
    /// The built-in defaults: a 300 pixel wide window shown for 3 seconds,
    /// 10 pixels between stacked windows, 64 pixel images and icons, and the
    /// theme at `style.css`.
    fn default() -> (c: Config)
        ensures
            c@ == spec_default_config(),
            c.wf(),
    {
        let c = Config {
            width: 300,
            image_height: 64,
            padding_x: 0,
            padding_y: 0,
            duration_ms: 3000,
            notification_spacing: 10,
            icon_height: 64,
            theme_path: "style.css".to_owned(),
        };
        proof {
            assert(c@ =~= spec_default_config());
        }
        c
    }
}

/// `rel` appended under `dir`: `rel` itself when it is absolute, otherwise
/// `dir` and `rel` with exactly one `/` between them.
pub open spec fn spec_join_path(dir: Seq<char>, rel: Seq<char>) -> Seq<char> {
    if rel.len() > 0 && rel[0] == '/' {
        rel
    } else if dir.len() > 0 && dir[dir.len() - 1] == '/' {
        dir + rel
    } else {
        dir + "/"@ + rel
    }
}

/// Joins a relative path onto a directory, per [`spec_join_path`].
fn join_path(dir: &str, rel: &str) -> (r: String)
    ensures
        r@ == spec_join_path(dir@, rel@),
{
    proof {
        reveal_strlit("/");
    }
    let rlen = rel.unicode_len();
    if rlen > 0 && rel.get_char(0) == '/' {
        return rel.to_owned();
    }
    let mut out = dir.to_owned();
    let dlen = dir.unicode_len();
    if !(dlen > 0 && dir.get_char(dlen - 1) == '/') {
        out.append("/");
    }
    out.append(rel);
    out
}

/// A whitespace character inside a configuration line.
pub open spec fn is_ws(c: char) -> bool {
    c == ' ' || c == '\t' || c == '\r'
}

/// A decimal digit.
pub open spec fn is_digit(c: char) -> bool {
    '0' <= c && c <= '9'
}

/// The first index at or after `i` where `ch` stands, or the length when it
/// does not occur there.
pub open spec fn first_at(t: Seq<char>, ch: char, i: int) -> int
    decreases t.len() - i,
{
    if i < t.len() {
        if t[i] == ch {
            i
        } else {
            first_at(t, ch, i + 1)
        }
    } else {
        t.len() as int
    }
}

/// The end of the whitespace run that starts at `i`.
pub open spec fn ws_end(l: Seq<char>, i: int) -> int
    decreases l.len() - i,
{
    if i < l.len() && is_ws(l[i]) {
        ws_end(l, i + 1)
    } else {
        i
    }
}

/// The start of the whitespace run that ends at `j`, not crossing `lo`.
pub open spec fn ws_start(l: Seq<char>, j: int, lo: int) -> int
    decreases j - lo,
{
    if lo < j && j <= l.len() && is_ws(l[j - 1]) {
        ws_start(l, j - 1, lo)
    } else {
        j
    }
}

/// The value of a digit string, most significant first.
pub open spec fn digits_val(s: Seq<char>) -> int
    decreases s.len(),
{
    if s.len() == 0 {
        0
    } else {
        digits_val(s.drop_last()) * 10 + (s.last() as int - '0' as int)
    }
}

/// Every character is a decimal digit.
pub open spec fn all_digits(s: Seq<char>) -> bool {
    forall|i: int| 0 <= i < s.len() ==> is_digit(s[i])
}

/// The value of an optionally signed decimal integer, if it is one and fits
/// a signed 32-bit field.
pub open spec fn spec_parse_i32(s: Seq<char>) -> Option<int> {
    let neg = s.len() > 0 && s[0] == '-';
    let ds = if neg {
        s.drop_first()
    } else {
        s
    };
    if ds.len() == 0 || !all_digits(ds) {
        None
    } else {
        let v = if neg {
            -digits_val(ds)
        } else {
            digits_val(ds)
        };
        if i32::MIN <= v && v <= i32::MAX {
            Some(v)
        } else {
            None
        }
    }
}

/// The digit at a fractional position, 0 past the end.
pub open spec fn digit_at(f: Seq<char>, i: int) -> int {
    if 0 <= i < f.len() {
        f[i] as int - '0' as int
    } else {
        0
    }
}

/// The milliseconds a fractional-seconds digit string stands for: its first
/// three digits, zero-padded; further digits are beyond millisecond
/// resolution and ignored.
pub open spec fn frac_ms(f: Seq<char>) -> int {
    digit_at(f, 0) * 100 + digit_at(f, 1) * 10 + digit_at(f, 2)
}

/// The milliseconds a duration value stands for: decimal seconds, with an
/// optional fractional part, read at millisecond resolution. Durations above
/// a billion seconds are refused.
pub open spec fn spec_parse_duration_ms(s: Seq<char>) -> Option<int> {
    let dot = first_at(s, '.', 0);
    let whole = s.subrange(0, dot);
    let frac = if dot < s.len() {
        s.subrange(dot + 1, s.len() as int)
    } else {
        Seq::<char>::empty()
    };
    if whole.len() == 0 || !all_digits(whole) {
        None
    } else if dot < s.len() && (frac.len() == 0 || !all_digits(frac)) {
        None
    } else if digits_val(whole) > 1000000000 {
        None
    } else {
        Some(digits_val(whole) * 1000 + frac_ms(frac))
    }
}

/// The text between the quotes of a double-quoted string without inner
/// quotes, if the value is one.
pub open spec fn spec_parse_quoted(s: Seq<char>) -> Option<Seq<char>> {
    if s.len() >= 2 && s[0] == '"' && s.last() == '"' && (forall|i: int|
        0 < i < s.len() - 1 ==> s[i] != '"') {
        Some(s.subrange(1, s.len() - 1))
    } else {
        None
    }
}

/// What assigning `value` to `key` does to the configuration: each known key
/// parses per its field's type; an unknown key is refused.
pub open spec fn spec_assign(key: Seq<char>, value: Seq<char>, c: ConfigV) -> Result<
    ConfigV,
    ConfigError,
> {
    if key == "width"@ {
        match spec_parse_i32(value) {
            Some(v) => Ok(ConfigV { width: v, ..c }),
            None => Err(ConfigError::BadNumber),
        }
    } else if key == "image_height"@ {
        match spec_parse_i32(value) {
            Some(v) => Ok(ConfigV { image_height: v, ..c }),
            None => Err(ConfigError::BadNumber),
        }
    } else if key == "padding_x"@ {
        match spec_parse_i32(value) {
            Some(v) => Ok(ConfigV { padding_x: v, ..c }),
            None => Err(ConfigError::BadNumber),
        }
    } else if key == "padding_y"@ {
        match spec_parse_i32(value) {
            Some(v) => Ok(ConfigV { padding_y: v, ..c }),
            None => Err(ConfigError::BadNumber),
        }
    } else if key == "duration"@ {
        match spec_parse_duration_ms(value) {
            Some(v) => Ok(ConfigV { duration_ms: v, ..c }),
            None => Err(ConfigError::BadNumber),
        }
    } else if key == "notification_spacing"@ {
        match spec_parse_i32(value) {
            Some(v) => Ok(ConfigV { notification_spacing: v, ..c }),
            None => Err(ConfigError::BadNumber),
        }
    } else if key == "icon_height"@ {
        match spec_parse_i32(value) {
            Some(v) => Ok(ConfigV { icon_height: v, ..c }),
            None => Err(ConfigError::BadNumber),
        }
    } else if key == "theme_path"@ {
        match spec_parse_quoted(value) {
            Some(t) => Ok(ConfigV { theme_path: t, ..c }),
            None => Err(ConfigError::BadLine),
        }
    } else {
        Err(ConfigError::UnknownKey)
    }
}

/// What one configuration line does: blank lines and `#` comments change
/// nothing; anything else must be `key = value`, whitespace-trimmed, and
/// assigns per [`spec_assign`]. A later assignment overwrites an earlier one.
pub open spec fn spec_apply_line(l: Seq<char>, c: ConfigV) -> Result<ConfigV, ConfigError> {
    let a = ws_end(l, 0);
    let b = ws_start(l, l.len() as int, a);
    if a == b {
        Ok(c)
    } else if l[a] == '#' {
        Ok(c)
    } else {
        let eq = first_at(l, '=', a);
        if eq >= b {
            Err(ConfigError::BadLine)
        } else {
            let ke = ws_start(l, eq, a);
            let vs = ws_end(l, eq + 1);
            let value = if vs >= b {
                Seq::<char>::empty()
            } else {
                l.subrange(vs, b)
            };
            spec_assign(l.subrange(a, ke), value, c)
        }
    }
}

/// The configuration that the lines from index `i` onward leave, starting
/// from `c`. Lines end at a newline or at the end of the text.
pub open spec fn spec_parse_lines(t: Seq<char>, i: int, c: ConfigV) -> Result<ConfigV, ConfigError>
    decreases t.len() - i,
    via spec_parse_lines_decreases
{
    if i >= t.len() {
        Ok(c)
    } else {
        let e = first_at(t, '\n', i);
        match spec_apply_line(t.subrange(i, e), c) {
            Err(err) => Err(err),
            Ok(c2) => spec_parse_lines(
                t,
                if e + 1 < t.len() {
                    e + 1
                } else {
                    t.len() as int
                },
                c2,
            ),
        }
    }
}

/// `first_at` never runs backwards nor past the end.
proof fn lemma_first_at_bounds(t: Seq<char>, ch: char, i: int)
    requires
        i <= t.len(),
    ensures
        i <= first_at(t, ch, i) <= t.len(),
    decreases t.len() - i,
{
    if i < t.len() && t[i] != ch {
        lemma_first_at_bounds(t, ch, i + 1);
    }
}

#[via_fn]
proof fn spec_parse_lines_decreases(t: Seq<char>, i: int, c: ConfigV) {
    if i < t.len() {
        lemma_first_at_bounds(t, '\n', i);
    }
}

/// The configuration that a text stands for: the defaults overridden line by
/// line.
pub open spec fn spec_parse_config(t: Seq<char>) -> Result<ConfigV, ConfigError> {
    spec_parse_lines(t, 0, spec_default_config())
}

/// The view of a parse result.
pub open spec fn config_result_view(r: Result<Config, ConfigError>) -> Result<
    ConfigV,
    ConfigError,
> {
    match r {
        Ok(c) => Ok(c@),
        Err(e) => Err(e),
    }
}

/// A scan that stops at the first `ch` finds `first_at`.
proof fn lemma_first_at(t: Seq<char>, ch: char, s: int, k: int)
    requires
        0 <= s <= k <= t.len(),
        forall|j: int| s <= j < k ==> t[j] != ch,
        k == t.len() || t[k] == ch,
    ensures
        first_at(t, ch, s) == k,
    decreases k - s,
{
    if s < k {
        lemma_first_at(t, ch, s + 1, k);
    }
}

/// A scan that stops at the first non-whitespace finds `ws_end`.
proof fn lemma_ws_end(l: Seq<char>, s: int, k: int)
    requires
        0 <= s <= k <= l.len(),
        forall|j: int| s <= j < k ==> is_ws(l[j]),
        k == l.len() || !is_ws(l[k]),
    ensures
        ws_end(l, s) == k,
    decreases k - s,
{
    if s < k {
        lemma_ws_end(l, s + 1, k);
    }
}

/// A whitespace run pushes `ws_end` at least past it.
proof fn lemma_ws_end_ge(l: Seq<char>, s: int, b: int)
    requires
        0 <= s <= b <= l.len(),
        forall|j: int| s <= j < b ==> is_ws(l[j]),
    ensures
        ws_end(l, s) >= b,
    decreases b - s,
{
    if s < b {
        assert(is_ws(l[s]));
        lemma_ws_end_ge(l, s + 1, b);
        assert(ws_end(l, s) == ws_end(l, s + 1));
    } else {
        lemma_ws_end_lb(l, s);
    }
}

/// `ws_end` never runs backwards.
proof fn lemma_ws_end_lb(l: Seq<char>, i: int)
    ensures
        ws_end(l, i) >= i,
    decreases l.len() - i,
{
    if i < l.len() && is_ws(l[i]) {
        lemma_ws_end_lb(l, i + 1);
    }
}

/// A backward scan that stops at the first non-whitespace finds `ws_start`.
proof fn lemma_ws_start(l: Seq<char>, hi: int, k: int, lo: int)
    requires
        0 <= lo <= k <= hi <= l.len(),
        forall|j: int| k <= j < hi ==> is_ws(l[j]),
        k == lo || !is_ws(l[k - 1]),
    ensures
        ws_start(l, hi, lo) == k,
    decreases hi - k,
{
    if k < hi {
        lemma_ws_start(l, hi - 1, k, lo);
    }
}

/// A digit string's value is non-negative.
proof fn lemma_digits_nonneg(s: Seq<char>)
    requires
        all_digits(s),
    ensures
        digits_val(s) >= 0,
    decreases s.len(),
{
    if s.len() > 0 {
        assert(all_digits(s.drop_last()));
        lemma_digits_nonneg(s.drop_last());
    }
}

/// Appending digits never shrinks the value.
proof fn lemma_digits_prefix_le(d: Seq<char>, k: int)
    requires
        all_digits(d),
        0 <= k <= d.len(),
    ensures
        digits_val(d.subrange(0, k)) <= digits_val(d),
    decreases d.len() - k,
{
    if k == d.len() {
        assert(d.subrange(0, k) =~= d);
    } else {
        lemma_digits_prefix_le(d, k + 1);
        let p = d.subrange(0, k + 1);
        assert(p.drop_last() =~= d.subrange(0, k));
        assert(all_digits(d.subrange(0, k)));
        lemma_digits_nonneg(d.subrange(0, k));
        assert(digits_val(p) == digits_val(d.subrange(0, k)) * 10 + (d[k] as int - '0' as int));
    }
}

/// Parses an optionally signed decimal integer into a signed 32-bit value.
fn parse_i32(s: &str) -> (r: Option<i32>)
    ensures
        r matches Some(v) ==> spec_parse_i32(s@) == Some(v as int),
        r is None ==> spec_parse_i32(s@) is None,
{
    let n = s.unicode_len();
    let neg = n > 0 && s.get_char(0) == '-';
    let start: usize = if neg {
        1
    } else {
        0
    };
    let ghost ds = if neg {
        s@.drop_first()
    } else {
        s@
    };
    if start >= n {
        return None;
    }
    let mut m: u64 = 0;
    let mut i: usize = start;
    while i < n
        invariant
            n == s@.len(),
            start <= i <= n,
            start == if neg {
                1int
            } else {
                0int
            },
            start < n,
            neg == (s@.len() > 0 && s@[0] == '-'),
            ds == if neg {
                s@.drop_first()
            } else {
                s@
            },
            forall|j: int| start <= j < i ==> is_digit(s@[j]),
            m == digits_val(s@.subrange(start as int, i as int)),
            m <= 2147483648,
        decreases n - i,
    {
        let ch = s.get_char(i);
        if !(ch >= '0' && ch <= '9') {
            proof {
                assert(ds[i - start] == s@[i as int]);
                assert(!all_digits(ds));
            }
            return None;
        }
        let d = (ch as u32 - '0' as u32) as u64;
        m = m * 10 + d;
        proof {
            let p = s@.subrange(start as int, i + 1);
            assert(p.drop_last() =~= s@.subrange(start as int, i as int));
            assert(p.last() == s@[i as int]);
        }
        i = i + 1;
        if m > 2147483648 {
            proof {
                if all_digits(ds) {
                    assert(ds.subrange(0, i - start) =~= s@.subrange(start as int, i as int));
                    lemma_digits_prefix_le(ds, i - start);
                }
            }
            return None;
        }
    }
    proof {
        assert(ds =~= s@.subrange(start as int, n as int));
    }
    if neg {
        if m == 2147483648 {
            Some(i32::MIN)
        } else {
            Some(-(m as i32))
        }
    } else {
        if m > 2147483647 {
            return None;
        }
        Some(m as i32)
    }
}

/// Parses a decimal-seconds duration into milliseconds.
fn parse_duration_ms(s: &str) -> (r: Option<u64>)
    ensures
        r matches Some(v) ==> spec_parse_duration_ms(s@) == Some(v as int),
        r is None ==> spec_parse_duration_ms(s@) is None,
{
    let n = s.unicode_len();
    let dot = match crate::text::find_char(s, '.') {
        Some(i) => {
            proof {
                lemma_first_at(s@, '.', 0, i as int);
            }
            i
        },
        None => {
            proof {
                lemma_first_at(s@, '.', 0, n as int);
            }
            n
        },
    };
    let ghost whole = s@.subrange(0, dot as int);
    if dot == 0 {
        return None;
    }
    let mut m: u64 = 0;
    let mut i: usize = 0;
    while i < dot
        invariant
            n == s@.len(),
            dot <= n,
            0 < dot,
            first_at(s@, '.', 0) == dot as int,
            whole == s@.subrange(0, dot as int),
            i <= dot,
            forall|j: int| 0 <= j < i ==> is_digit(s@[j]),
            m == digits_val(s@.subrange(0, i as int)),
            m <= 1000000000,
        decreases dot - i,
    {
        let ch = s.get_char(i);
        if !(ch >= '0' && ch <= '9') {
            proof {
                assert(whole[i as int] == s@[i as int]);
                assert(!all_digits(whole));
            }
            return None;
        }
        let d = (ch as u32 - '0' as u32) as u64;
        m = m * 10 + d;
        proof {
            let p = s@.subrange(0, i + 1);
            assert(p.drop_last() =~= s@.subrange(0, i as int));
            assert(p.last() == s@[i as int]);
        }
        i = i + 1;
        if m > 1000000000 {
            proof {
                if all_digits(whole) {
                    assert(whole.subrange(0, i as int) =~= s@.subrange(0, i as int));
                    lemma_digits_prefix_le(whole, i as int);
                }
            }
            return None;
        }
    }
    proof {
        assert(whole =~= s@.subrange(0, dot as int));
        assert(all_digits(whole));
    }
    let mut millis: u64 = m * 1000;
    if dot < n {
        let ghost frac = s@.subrange(dot + 1, n as int);
        if dot + 1 >= n {
            proof {
                assert(frac.len() == 0);
            }
            return None;
        }
        let mut j: usize = dot + 1;
        while j < n
            invariant
                n == s@.len(),
                dot + 1 <= j <= n,
                dot < n,
                0 < dot,
                first_at(s@, '.', 0) == dot as int,
                frac == s@.subrange(dot + 1, n as int),
                forall|k: int| dot + 1 <= k < j ==> is_digit(s@[k]),
            decreases n - j,
        {
            let ch = s.get_char(j);
            if !(ch >= '0' && ch <= '9') {
                proof {
                    assert(frac[j - dot - 1] == s@[j as int]);
                    assert(!all_digits(frac));
                }
                return None;
            }
            j = j + 1;
        }
        proof {
            assert(all_digits(frac));
            assert forall|k: int| 0 <= k < frac.len() implies frac[k] == s@[dot + 1 + k] by {}
        }
        let fl = n - dot - 1;
        let d0 = (s.get_char(dot + 1) as u32 - '0' as u32) as u64;
        let d1: u64 = if fl >= 2 {
            (s.get_char(dot + 2) as u32 - '0' as u32) as u64
        } else {
            0
        };
        let d2: u64 = if fl >= 3 {
            (s.get_char(dot + 3) as u32 - '0' as u32) as u64
        } else {
            0
        };
        millis = millis + d0 * 100 + d1 * 10 + d2;
    }
    Some(millis)
}

/// Parses a double-quoted string without inner quotes.
fn parse_quoted(s: &str) -> (r: Option<String>)
    ensures
        r matches Some(t) ==> spec_parse_quoted(s@) == Some(t@),
        r is None ==> spec_parse_quoted(s@) is None,
{
    let n = s.unicode_len();
    if n < 2 || s.get_char(0) != '"' || s.get_char(n - 1) != '"' {
        return None;
    }
    let mut i: usize = 1;
    while i < n - 1
        invariant
            n == s@.len(),
            2 <= n,
            1 <= i <= n - 1,
            s@[0] == '"',
            s@[n - 1] == '"',
            forall|j: int| 0 < j < i ==> s@[j] != '"',
        decreases n - i,
    {
        if s.get_char(i) == '"' {
            return None;
        }
        i = i + 1;
    }
    Some(s.substring_char(1, n - 1).to_owned())
}

/// Applies one configuration line, per [`spec_apply_line`].
fn apply_line(line: &str, c: Config) -> (r: Result<Config, ConfigError>)
    ensures
        config_result_view(r) == spec_apply_line(line@, c@),
{
    let n = line.unicode_len();
    let mut a: usize = 0;
    while a < n && is_ws_char(line.get_char(a))
        invariant
            n == line@.len(),
            a <= n,
            forall|j: int| 0 <= j < a ==> is_ws(line@[j]),
        decreases n - a,
    {
        a = a + 1;
    }
    proof {
        lemma_ws_end(line@, 0, a as int);
    }
    let mut b: usize = n;
    while b > a && is_ws_char(line.get_char(b - 1))
        invariant
            n == line@.len(),
            a <= b <= n,
            forall|j: int| b <= j < n ==> is_ws(line@[j]),
        decreases b,
    {
        b = b - 1;
    }
    proof {
        lemma_ws_start(line@, n as int, b as int, a as int);
    }
    if a == b {
        return Ok(c);
    }
    if line.get_char(a) == '#' {
        return Ok(c);
    }
    let mut eq: usize = a;
    while eq < n && line.get_char(eq) != '='
        invariant
            n == line@.len(),
            a <= eq <= n,
            forall|j: int| a <= j < eq ==> line@[j] != '=',
        decreases n - eq,
    {
        eq = eq + 1;
    }
    proof {
        lemma_first_at(line@, '=', a as int, eq as int);
    }
    if eq >= b {
        return Err(ConfigError::BadLine);
    }
    let mut ke: usize = eq;
    while ke > a && is_ws_char(line.get_char(ke - 1))
        invariant
            n == line@.len(),
            a <= ke <= eq,
            eq < b <= n,
            forall|j: int| ke <= j < eq ==> is_ws(line@[j]),
        decreases ke,
    {
        ke = ke - 1;
    }
    proof {
        lemma_ws_start(line@, eq as int, ke as int, a as int);
    }
    let mut vs: usize = eq + 1;
    while vs < b && is_ws_char(line.get_char(vs))
        invariant
            n == line@.len(),
            eq + 1 <= vs <= b,
            b <= n,
            forall|j: int| eq + 1 <= j < vs ==> is_ws(line@[j]),
        decreases b - vs,
    {
        vs = vs + 1;
    }
    proof {
        if vs < b {
            lemma_ws_end(line@, eq + 1, vs as int);
        } else {
            lemma_ws_end_ge(line@, eq + 1, b as int);
        }
    }
    let key = line.substring_char(a, ke);
    let value = if vs < b {
        line.substring_char(vs, b)
    } else {
        line.substring_char(b, b)
    };
    proof {
        if vs >= b {
            assert(value@ =~= Seq::<char>::empty());
        }
    }
    assign(key, value, c)
}

/// Whether a character is configuration-line whitespace.
fn is_ws_char(c: char) -> (r: bool)
    ensures
        r == is_ws(c),
{
    c == ' ' || c == '\t' || c == '\r'
}

/// Assigns a parsed value to the field its key names, per [`spec_assign`].
fn assign(key: &str, value: &str, c: Config) -> (r: Result<Config, ConfigError>)
    ensures
        config_result_view(r) == spec_assign(key@, value@, c@),
{
    let mut c = c;
    if crate::text::str_eq(key, "width") {
        match parse_i32(value) {
            Some(v) => {
                c.width = v;
                Ok(c)
            },
            None => Err(ConfigError::BadNumber),
        }
    } else if crate::text::str_eq(key, "image_height") {
        match parse_i32(value) {
            Some(v) => {
                c.image_height = v;
                Ok(c)
            },
            None => Err(ConfigError::BadNumber),
        }
    } else if crate::text::str_eq(key, "padding_x") {
        match parse_i32(value) {
            Some(v) => {
                c.padding_x = v;
                Ok(c)
            },
            None => Err(ConfigError::BadNumber),
        }
    } else if crate::text::str_eq(key, "padding_y") {
        match parse_i32(value) {
            Some(v) => {
                c.padding_y = v;
                Ok(c)
            },
            None => Err(ConfigError::BadNumber),
        }
    } else if crate::text::str_eq(key, "duration") {
        match parse_duration_ms(value) {
            Some(v) => {
                c.duration_ms = v;
                Ok(c)
            },
            None => Err(ConfigError::BadNumber),
        }
    } else if crate::text::str_eq(key, "notification_spacing") {
        match parse_i32(value) {
            Some(v) => {
                c.notification_spacing = v;
                Ok(c)
            },
            None => Err(ConfigError::BadNumber),
        }
    } else if crate::text::str_eq(key, "icon_height") {
        match parse_i32(value) {
            Some(v) => {
                c.icon_height = v;
                Ok(c)
            },
            None => Err(ConfigError::BadNumber),
        }
    } else if crate::text::str_eq(key, "theme_path") {
        match parse_quoted(value) {
            Some(t) => {
                c.theme_path = t;
                Ok(c)
            },
            None => Err(ConfigError::BadLine),
        }
    } else {
        Err(ConfigError::UnknownKey)
    }
}

impl Config {
    /// Parses configuration text, per [`spec_parse_config`]: the defaults,
    /// overridden line by line. A line is blank, a `#` comment, or
    /// `key = value` with an integer, a decimal-seconds `duration`, or a
    /// double-quoted `theme_path`; anything else rejects the text. Reading
    /// the text from disk is the caller's part.
    pub fn load_from(text: &str) -> (r: Result<Config, ConfigError>)
        ensures
            config_result_view(r) == spec_parse_config(text@),
    {
        let n = text.unicode_len();
        let mut c = Config::default();
        let mut i: usize = 0;
        while i < n
            invariant
                n == text@.len(),
                i <= n + 1,
                spec_parse_lines(text@, i as int, c@) == spec_parse_config(text@),
            decreases n - i,
        {
            let mut e: usize = i;
            while e < n && text.get_char(e) != '\n'
                invariant
                    n == text@.len(),
                    i <= e <= n,
                    forall|j: int| i <= j < e ==> text@[j] != '\n',
                decreases n - e,
            {
                e = e + 1;
            }
            proof {
                lemma_first_at(text@, '\n', i as int, e as int);
            }
            let line = text.substring_char(i, e);
            match apply_line(line, c) {
                Ok(c2) => {
                    c = c2;
                },
                Err(err) => {
                    return Err(err);
                },
            }
            if e == n {
                proof {
                    assert(spec_parse_lines(text@, text@.len() as int, c@) == Ok::<
                        ConfigV,
                        ConfigError,
                    >(c@));
                }
                return Ok(c);
            }
            i = e + 1;
        }
        Ok(c)
    }
}

/// Relies on `directories::ProjectDirs`: the per-user configuration directory
/// of this project, which depends on the environment (the user's home); every
/// outcome is either absent or a non-empty path.
#[verifier::external_body]
fn project_config_dir() -> (r: Option<String>)
    ensures
        r matches Some(d) ==> d@.len() > 0,
{
    match directories::ProjectDirs::from("ai", "deifactor", "ninomiya") {
        Some(dirs) => dirs.config_dir().to_str().map(|s| s.to_owned()),
        None => None,
    }
}

impl Config {
    /// The path of the selected theme file: the per-user configuration
    /// directory joined with `theme_path`. Which directory that is depends on
    /// the environment, so the contract fixes the join alone; when no
    /// configuration directory can be computed, that is the one error.
    pub fn full_theme_path(&self) -> (r: Result<String, ConfigError>)
        ensures
            r matches Ok(p) ==> exists|dir: Seq<char>|
                dir.len() > 0 && p@ == spec_join_path(dir, self.theme_path@),
            r matches Err(e) ==> e == ConfigError::NoConfigDir,
    {
        match project_config_dir() {
            Some(dir) => {
                let joined = join_path(dir.as_str(), self.theme_path.as_str());
                proof {
                    assert(dir@.len() > 0 && joined@ == spec_join_path(dir@, self.theme_path@));
                }
                Ok(joined)
            },
            None => Err(ConfigError::NoConfigDir),
        }
    }
}

} // verus!
