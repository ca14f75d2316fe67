//! Pure helpers for the packaging collaborator: parsing the key-value
//! project-configuration text, serializing source bytes into the
//! textual bit-per-byte encoding, and the fixed-width length trailer
//! appended after the encoding. All file handling stays with the
//! caller; these functions map plain values to plain values.

use vstd::prelude::*;

use crate::numeric::{match_ci, match_ci_from};
use crate::text::{chars_to_string, count_char, find_char, lemma_find_char_at, spec_trim,
    str_to_chars, subvec, trim_chars};

verus! {

/// Mathematical model of a parsed project configuration.
#[verifier::ext_equal]
pub ghost struct ConfigModel {
    pub name: Seq<char>,
    pub authors: Seq<char>,
    pub version: Seq<char>,
}

/// The project configuration read before packaging: the artifact
/// name, the authors and the version, each a required key of the
/// configuration text.
#[derive(Debug)]
pub struct CompilerConfig {
    pub name: String,
    pub authors: String,
    pub version: String,
}

impl View for CompilerConfig {
    type V = ConfigModel;

    open spec fn view(&self) -> ConfigModel {
        ConfigModel { name: self.name@, authors: self.authors@, version: self.version@ }
    }
}

/// The configuration every parse starts from: all keys unset.
pub open spec fn empty_config() -> ConfigModel {
    ConfigModel { name: Seq::empty(), authors: Seq::empty(), version: Seq::empty() }
}

impl CompilerConfig {
    /// A configuration with every key still unset.
    pub fn new() -> (r: Self)
        ensures
            r@ == empty_config(),
    {
        let c = CompilerConfig {
            name: String::new(),
            authors: String::new(),
            version: String::new(),
        };
        proof {
            assert(c@ =~= empty_config());
        }
        c
    }
}

/// The rule a configuration text can violate.
#[derive(Clone, Copy, Debug, PartialEq, Eq, Structural)]
pub enum ConfigErrorKind {
    /// A line holds more than one key-value separator.
    TooManyValues,
    /// A line's key is none of the recognized keys.
    InvalidKey,
    /// A non-empty line holds no key-value separator.
    InvalidTerm,
    /// The name key is missing or empty.
    MissingName,
    /// The authors key is missing or empty.
    MissingAuthors,
    /// The version key is missing or empty.
    MissingVersion,
}

/// Mathematical model of a configuration diagnostic.
#[verifier::ext_equal]
pub ghost struct ConfigErrorModel {
    pub kind: ConfigErrorKind,
    pub line: int,
    pub detail: Seq<char>,
}

/// A configuration diagnostic: the violated rule, the 1-based line it
/// was found on (0 for a missing key, which no single line causes)
/// and the offending key or term as written.
#[derive(Debug)]
pub struct ConfigError {
    pub kind: ConfigErrorKind,
    pub line: usize,
    pub detail: String,
}

impl View for ConfigError {
    type V = ConfigErrorModel;

    open spec fn view(&self) -> ConfigErrorModel {
        ConfigErrorModel { kind: self.kind, line: self.line as int, detail: self.detail@ }
    }
}

/// Apply one configuration line to the configuration gathered so far:
/// a line with one `:` sets the key it names (later lines overwrite
/// earlier ones), a blank line is skipped, anything else is an error.
pub open spec fn spec_config_line(cfg: ConfigModel, l: Seq<char>) -> Result<
    ConfigModel,
    (ConfigErrorKind, Seq<char>),
> {
    if count_char(l, ':') >= 2 {
        Err((ConfigErrorKind::TooManyValues, Seq::empty()))
    } else if count_char(l, ':') == 1 {
        let p = find_char(l, ':');
        let key = spec_trim(l.take(p));
        let value = spec_trim(l.skip(p + 1));
        if match_ci(key, seq!['n', 'a', 'm', 'e']) {
            Ok(ConfigModel { name: value, authors: cfg.authors, version: cfg.version })
        } else if match_ci(key, seq!['a', 'u', 't', 'h', 'o', 'r', 's']) {
            Ok(ConfigModel { name: cfg.name, authors: value, version: cfg.version })
        } else if match_ci(key, seq!['v', 'e', 'r']) {
            Ok(ConfigModel { name: cfg.name, authors: cfg.authors, version: value })
        } else {
            Err((ConfigErrorKind::InvalidKey, key))
        }
    } else if spec_trim(l).len() > 0 {
        Err((ConfigErrorKind::InvalidTerm, spec_trim(l)))
    } else {
        Ok(cfg)
    }
}

/// Run the configuration parser over the lines from index `i` on and
/// then require every key to be set.
pub open spec fn spec_config_run(lines: Seq<Seq<char>>, i: int, cfg: ConfigModel) -> Result<
    ConfigModel,
    ConfigErrorModel,
>
    decreases lines.len() - i,
{
    if i < 0 || i >= lines.len() {
        if cfg.name.len() == 0 {
            Err(ConfigErrorModel { kind: ConfigErrorKind::MissingName, line: 0, detail: Seq::empty() })
        } else if cfg.authors.len() == 0 {
            Err(
                ConfigErrorModel {
                    kind: ConfigErrorKind::MissingAuthors,
                    line: 0,
                    detail: Seq::empty(),
                },
            )
        } else if cfg.version.len() == 0 {
            Err(
                ConfigErrorModel {
                    kind: ConfigErrorKind::MissingVersion,
                    line: 0,
                    detail: Seq::empty(),
                },
            )
        } else {
            Ok(cfg)
        }
    } else {
        match spec_config_line(cfg, lines[i]) {
            Ok(c2) => spec_config_run(lines, i + 1, c2),
            Err((k, d)) => Err(ConfigErrorModel { kind: k, line: i + 1, detail: d }),
        }
    }
}

/// Parse a whole configuration text, given as its ordered lines.
pub open spec fn spec_parse_config(lines: Seq<Seq<char>>) -> Result<ConfigModel, ConfigErrorModel> {
    spec_config_run(lines, 0, empty_config())
}

fn make_pattern_name() -> (r: Vec<char>)
    ensures
        r@ == seq!['n', 'a', 'm', 'e'],
{
    let mut p: Vec<char> = Vec::new();
    p.push('n');
    p.push('a');
    p.push('m');
    p.push('e');
    proof {
        assert(p@ =~= seq!['n', 'a', 'm', 'e']);
    }
    p
}

fn make_pattern_authors() -> (r: Vec<char>)
    ensures
        r@ == seq!['a', 'u', 't', 'h', 'o', 'r', 's'],
{
    let mut p: Vec<char> = Vec::new();
    p.push('a');
    p.push('u');
    p.push('t');
    p.push('h');
    p.push('o');
    p.push('r');
    p.push('s');
    proof {
        assert(p@ =~= seq!['a', 'u', 't', 'h', 'o', 'r', 's']);
    }
    p
}

fn make_pattern_ver() -> (r: Vec<char>)
    ensures
        r@ == seq!['v', 'e', 'r'],
{
    let mut p: Vec<char> = Vec::new();
    p.push('v');
    p.push('e');
    p.push('r');
    proof {
        assert(p@ =~= seq!['v', 'e', 'r']);
    }
    p
}

fn apply_config_line(cfg: &mut CompilerConfig, l: &str) -> (r: Result<(), ConfigError>)
    ensures
        match spec_config_line(old(cfg)@, l@) {
            Ok(c2) => r is Ok && final(cfg)@ == c2,
            Err((k, d)) => (r matches Err(e) && e@.kind == k && e@.line == 0 && e@.detail == d)
                && final(cfg)@ == old(cfg)@,
        },
{
    let v = str_to_chars(l);
    let mut cnt: usize = 0;
    let mut p: usize = 0;
    let mut i: usize = 0;
    proof {
        assert(v@.take(0) =~= Seq::<char>::empty());
    }
    while i < v.len()
        invariant
            0 <= i <= v@.len(),
            cnt == count_char(v@.take(i as int), ':'),
            cnt <= i,
            cfg@ == old(cfg)@,
            cnt == 0 ==> forall|j: int| 0 <= j < i ==> v@[j] != ':',
            cnt > 0 ==> p < i && v@[p as int] == ':' && (forall|j: int|
                0 <= j < p ==> v@[j] != ':'),
        decreases v@.len() - i,
    {
        proof {
            assert(v@.take(i + 1).drop_last() =~= v@.take(i as int));
            assert(v@.take(i + 1).last() == v@[i as int]);
        }
        if v[i] == ':' {
            if cnt == 0 {
                p = i;
            }
            cnt = cnt + 1;
        }
        i = i + 1;
    }
    proof {
        assert(v@.take(v@.len() as int) =~= v@);
    }
    if cnt >= 2 {
        return Err(
            ConfigError { kind: ConfigErrorKind::TooManyValues, line: 0, detail: String::new() },
        );
    }
    if cnt == 1 {
        proof {
            lemma_find_char_at(v@, ':', p as int);
        }
        let head = subvec(&v, 0, p);
        let key_v = trim_chars(&head);
        let tail = subvec(&v, p + 1, v.len());
        let value_v = trim_chars(&tail);
        proof {
            assert(v@.subrange(0, p as int) =~= v@.take(p as int));
            assert(v@.subrange(p + 1, v@.len() as int) =~= v@.skip(p + 1));
        }
        let p_name = make_pattern_name();
        let p_authors = make_pattern_authors();
        let p_ver = make_pattern_ver();
        proof {
            assert(key_v@.skip(0) =~= key_v@);
            assert(value_v@.skip(0) =~= value_v@);
        }
        if match_ci_from(&key_v, 0, &p_name) {
            cfg.name = chars_to_string(&value_v);
            return Ok(());
        }
        if match_ci_from(&key_v, 0, &p_authors) {
            cfg.authors = chars_to_string(&value_v);
            return Ok(());
        }
        if match_ci_from(&key_v, 0, &p_ver) {
            cfg.version = chars_to_string(&value_v);
            return Ok(());
        }
        return Err(
            ConfigError {
                kind: ConfigErrorKind::InvalidKey,
                line: 0,
                detail: chars_to_string(&key_v),
            },
        );
    }
    let t = trim_chars(&v);
    if t.len() > 0 {
        return Err(
            ConfigError {
                kind: ConfigErrorKind::InvalidTerm,
                line: 0,
                detail: chars_to_string(&t),
            },
        );
    }
    Ok(())
}

/// Parse the key-value configuration text, given as its ordered
/// lines; executable mirror of [`spec_parse_config`]. The three keys
/// `name`, `authors` and `ver` are matched case-insensitively, later
/// occurrences overwrite earlier ones, and all three must end up
/// non-empty.
pub fn parse_config(lines: &Vec<String>) -> (r: Result<CompilerConfig, ConfigError>)
    ensures
        match spec_parse_config(lines.deep_view()) {
            Ok(c) => r matches Ok(cfg) && cfg@ == c,
            Err(e) => r matches Err(x) && x@ == e,
        },
{
    let ghost lv = lines.deep_view();
    let mut cfg = CompilerConfig::new();
    let mut i: usize = 0;
    while i < lines.len()
        invariant
            0 <= i <= lines.len(),
            lv == lines.deep_view(),
            lv.len() == lines.len(),
            spec_parse_config(lv) == spec_config_run(lv, i as int, cfg@),
        decreases lines.len() - i,
    {
        proof {
            assert(lv[i as int] == lines@[i as int]@);
        }
        match apply_config_line(&mut cfg, lines[i].as_str()) {
            Ok(()) => {},
            Err(e) => {
                return Err(
                    ConfigError { kind: e.kind, line: i + 1, detail: e.detail },
                );
            },
        }
        i = i + 1;
    }
    if cfg.name.as_str().unicode_len() == 0 {
        return Err(
            ConfigError { kind: ConfigErrorKind::MissingName, line: 0, detail: String::new() },
        );
    }
    if cfg.authors.as_str().unicode_len() == 0 {
        return Err(
            ConfigError { kind: ConfigErrorKind::MissingAuthors, line: 0, detail: String::new() },
        );
    }
    if cfg.version.as_str().unicode_len() == 0 {
        return Err(
            ConfigError { kind: ConfigErrorKind::MissingVersion, line: 0, detail: String::new() },
        );
    }
    Ok(cfg)
}

/// The bit character of `b` at position `k`, most significant first.
pub open spec fn bit_char(b: u8, k: int) -> char {
    if (b >> ((7 - k) as u8)) & 1 == 1 {
        '1'
    } else {
        '0'
    }
}

/// The nine characters one byte serializes to: its eight bits, most
/// significant first, then the separator dot.
pub open spec fn byte_chars(b: u8) -> Seq<char> {
    Seq::new(
        9,
        |k: int|
            if k == 8 {
                '.'
            } else {
                bit_char(b, k)
            },
    )
}

/// The textual bit-per-byte encoding of a byte sequence.
pub open spec fn spec_encode(bytes: Seq<u8>) -> Seq<char>
    decreases bytes.len(),
{
    if bytes.len() == 0 {
        Seq::empty()
    } else {
        spec_encode(bytes.drop_last()) + byte_chars(bytes.last())
    }
}

/// Serialize source bytes into the textual bit-per-byte encoding:
/// eight binary digits per byte, most significant bit first, each
/// byte followed by a dot.
pub fn encode_source(bytes: &Vec<u8>) -> (r: String)
    ensures
        r@ == spec_encode(bytes@),
{
    let mut out: Vec<char> = Vec::new();
    let mut i: usize = 0;
    proof {
        assert(bytes@.take(0) =~= Seq::<u8>::empty());
        assert(out@ =~= spec_encode(bytes@.take(0)));
    }
    while i < bytes.len()
        invariant
            0 <= i <= bytes@.len(),
            out@ == spec_encode(bytes@.take(i as int)),
        decreases bytes@.len() - i,
    {
        let b = bytes[i];
        let ghost prev = out@;
        let mut k: usize = 0;
        while k < 8
            invariant
                0 <= k <= 8,
                b == bytes@[i as int],
                0 <= i < bytes@.len(),
                out@ == prev + byte_chars(b).take(k as int),
            decreases 8 - k,
        {
            let sh: u8 = (7 - k) as u8;
            let bit = (b >> sh) & 1;
            let c = if bit == 1 {
                '1'
            } else {
                '0'
            };
            out.push(c);
            proof {
                assert(byte_chars(b)[k as int] == c);
                assert(prev + byte_chars(b).take(k + 1) =~= (prev + byte_chars(b).take(
                    k as int,
                )).push(c));
            }
            k = k + 1;
        }
        out.push('.');
        proof {
            assert(out@ =~= prev + byte_chars(b));
            assert(bytes@.take(i + 1).drop_last() =~= bytes@.take(i as int));
            assert(bytes@.take(i + 1).last() == b);
        }
        i = i + 1;
    }
    proof {
        assert(bytes@.take(bytes@.len() as int) =~= bytes@);
    }
    chars_to_string(&out)
}

/// The decimal digit bytes of `n`, most significant first.
pub open spec fn dec_digits(n: nat) -> Seq<u8>
    decreases n,
{
    if n < 10 {
        seq![(48 + n) as u8]
    } else {
        dec_digits(n / 10).push((48 + n % 10) as u8)
    }
}

/// Powers of ten.
pub open spec fn pow10(k: nat) -> nat
    decreases k,
{
    if k == 0 {
        1
    } else {
        10 * pow10((k - 1) as nat)
    }
}

proof fn lemma_dec_digits_len(n: nat, k: nat)
    requires
        k >= 1,
        n < pow10(k),
    ensures
        dec_digits(n).len() >= 1,
        dec_digits(n).len() <= k,
    decreases n,
{
    if n >= 10 {
        if k == 1 {
            assert(pow10(1nat) == 10) by {
                reveal_with_fuel(pow10, 2);
            }
            assert(false);
        }
        assert(n / 10 < pow10((k - 1) as nat)) by (nonlinear_arith)
            requires
                n < pow10(k),
                pow10(k) == 10 * pow10((k - 1) as nat),
                n >= 10,
        ;
        lemma_dec_digits_len(n / 10, (k - 1) as nat);
    }
}

/// The fixed-width length trailer: the decimal digits of `n`, right
/// aligned in ten bytes, padded with spaces on the left.
pub open spec fn spec_trailer(n: nat) -> Seq<u8> {
    Seq::new((10 - dec_digits(n).len()) as nat, |i: int| 32u8) + dec_digits(n)
}

/// Build the ten-byte length trailer for an encoding of `n`
/// characters. Lengths of more than ten digits do not fit the fixed
/// width and are ruled out.
pub fn length_trailer(n: usize) -> (r: Vec<u8>)
    requires
        n < 10_000_000_000,
    ensures
        r@ == spec_trailer(n as nat),
        r@.len() == 10,
{
    proof {
        assert(pow10(10nat) == 10000000000) by {
            reveal_with_fuel(pow10, 11);
        }
        lemma_dec_digits_len(n as nat, 10);
    }
    let mut rev: Vec<u8> = Vec::new();
    let mut m: usize = n;
    let d0: u8 = (m % 10) as u8;
    rev.push(48 + d0);
    proof {
        let ghost_digits = dec_digits(n as nat);
        if n < 10 {
            assert(rev@.reverse() =~= dec_digits(n as nat));
        } else {
            assert(dec_digits(n as nat) == dec_digits((n / 10) as nat).push((48 + n % 10) as u8));
            assert(dec_digits((n / 10) as nat) + rev@.reverse() =~= dec_digits(n as nat));
        }
    }
    m = m / 10;
    while m > 0
        invariant
            dec_digits(n as nat) == (if m > 0 {
                dec_digits(m as nat)
            } else {
                Seq::<u8>::empty()
            }) + rev@.reverse(),
            rev@.len() >= 1,
            rev@.len() + (if m > 0 {
                dec_digits(m as nat).len() as int
            } else {
                0int
            }) == dec_digits(n as nat).len(),
        decreases m,
    {
        let d: u8 = (m % 10) as u8;
        let ghost prev = rev@;
        let ghost mm = m as nat;
        rev.push(48 + d);
        proof {
            assert(rev@.reverse() =~= seq![(48 + mm % 10) as u8] + prev.reverse());
            if m >= 10 {
                assert(dec_digits(mm) == dec_digits(mm / 10).push((48 + mm % 10) as u8));
                assert(dec_digits(mm / 10) + rev@.reverse() =~= dec_digits(mm) + prev.reverse());
            } else {
                assert(dec_digits(mm) =~= seq![(48 + mm % 10) as u8]);
                assert(rev@.reverse() =~= dec_digits(mm) + prev.reverse());
            }
        }
        m = m / 10;
    }
    let k = rev.len();
    let mut out: Vec<u8> = Vec::new();
    let mut i: usize = 0;
    while i < 10 - k
        invariant
            k == rev@.len(),
            1 <= k <= 10,
            0 <= i <= 10 - k,
            out@ =~= Seq::new(i as nat, |j: int| 32u8),
        decreases 10 - k - i,
    {
        out.push(32u8);
        proof {
            assert(out@ =~= Seq::new((i + 1) as nat, |j: int| 32u8));
        }
        i = i + 1;
    }
    let ghost pad = out@;
    let mut q: usize = 0;
    while q < k
        invariant
            k == rev@.len(),
            1 <= k <= 10,
            0 <= q <= k,
            pad == Seq::new((10 - k) as nat, |j: int| 32u8),
            out@ == pad + rev@.reverse().take(q as int),
        decreases k - q,
    {
        let b = rev[k - 1 - q];
        out.push(b);
        proof {
            assert(rev@.reverse()[q as int] == rev@[k - 1 - q]);
            assert(pad + rev@.reverse().take(q + 1) =~= (pad + rev@.reverse().take(
                q as int,
            )).push(b));
        }
        q = q + 1;
    }
    proof {
        assert(rev@.reverse().take(k as int) =~= rev@.reverse());
        assert(dec_digits(n as nat) =~= rev@.reverse());
        assert(out@ =~= spec_trailer(n as nat));
    }
    out
}

} // verus!
