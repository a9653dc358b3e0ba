//! The picker's persisted configuration, kept on the ESP as a tiny
//! `key=value` text file:
//!
//! ```text
//! default=steamos
//! timeout=5
//! last=windows
//! ```
//!
//! The installer writes the initial file; the picker updates `default` when
//! the user presses Y and `last` when it boots an OS.

use vstd::prelude::*;

use crate::strings::{
    chars_eq_str, chars_of, dec, digit_char, digits_value, find_char, is_digit, is_space, lemma_find_char,
    lemma_find_char_at, lines, lines_of, parse_bounded, parse_u32, parse_unsigned, push_char,
    push_decimal, push_str, split_once, split_once_chars, trim, trim_chars, trim_end, trim_start,
    unsigned_digits, utf8_text,
};

verus! {

/// An operating system the picker can boot.
#[derive(Clone, Copy, PartialEq, Eq, Debug, Structural)]
pub enum Os {
    SteamOs,
    Windows,
}

/// The OS a (trimmed) config value names, if any.
pub open spec fn os_named(t: Seq<char>) -> Option<Os> {
    if t == "steamos"@ {
        Some(Os::SteamOs)
    } else if t == "windows"@ {
        Some(Os::Windows)
    } else {
        None
    }
}

impl Os {
    /// The name under which the OS is stored in the config file.
    pub open spec fn key_view(self) -> Seq<char> {
        match self {
            Os::SteamOs => "steamos"@,
            Os::Windows => "windows"@,
        }
    }

    /// The name under which the OS is stored in the config file.
    pub fn key(self) -> (r: &'static str)
        ensures
            r@ == self.key_view(),
    {
        match self {
            Os::SteamOs => "steamos",
            Os::Windows => "windows",
        }
    }

    /// Reads an OS name, ignoring surrounding whitespace.
    pub fn parse(s: &str) -> (r: Option<Os>)
        ensures
            r == os_named(trim(s@)),
    {
        let v = chars_of(s);
        Os::parse_chars(&v)
    }

    /// [`Os::parse`] on a character vector.
    pub fn parse_chars(v: &Vec<char>) -> (r: Option<Os>)
        ensures
            r == os_named(trim(v@)),
    {
        let t = trim_chars(v);
        if chars_eq_str(&t, "steamos") {
            Some(Os::SteamOs)
        } else if chars_eq_str(&t, "windows") {
            Some(Os::Windows)
        } else {
            None
        }
    }
}

/// The picker configuration.
#[derive(Clone, Copy, PartialEq, Eq, Debug, Structural)]
pub struct Config {
    /// The OS highlighted at start and booted when the countdown ends.
    pub default: Os,
    /// Auto-boot countdown in seconds (0: no countdown).
    pub timeout: u8,
    /// The OS booted last, if recorded.
    pub last: Option<Os>,
}

/// The longest countdown a config file can set.
pub const MAX_TIMEOUT: u8 = 60;

impl Config {
    /// The configuration used when no file can be read.
    pub open spec fn initial() -> Config {
        Config { default: Os::SteamOs, timeout: 5, last: None }
    }

    /// The configuration after reading one `key=value` line: `default` and
    /// `timeout` change only when their value reads correctly (a timeout is
    /// a `u8`, capped at 60); `last` is set to whatever the value names, so an
    /// unreadable value clears it; other lines change nothing.
    pub open spec fn with_line(self, line: Seq<char>) -> Config {
        match split_once(line, '=') {
            None => self,
            Some((k, v)) => {
                let k = trim(k);
                if k == "default"@ {
                    match os_named(trim(v)) {
                        Some(o) => Config { default: o, ..self },
                        None => self,
                    }
                } else if k == "timeout"@ {
                    match parse_bounded(trim(v), 255) {
                        Some(t) => Config {
                            timeout: (if t < 60 {
                                t
                            } else {
                                60
                            }) as u8,
                            ..self
                        },
                        None => self,
                    }
                } else if k == "last"@ {
                    Config { last: os_named(trim(v)), ..self }
                } else {
                    self
                }
            },
        }
    }

    /// The configuration that a text file holds: its lines read in order,
    /// starting from [`Config::initial`].
    pub open spec fn parsed(text: Seq<char>) -> Config {
        lines(text).fold_left(Config::initial(), |c: Config, l: Seq<char>| c.with_line(l))
    }

    /// The text of a config file as [`Config::load`] reads it: the file's
    /// bytes decoded as UTF-8, or nothing if they are not valid UTF-8.
    pub open spec fn file_text(bytes: Seq<u8>) -> Seq<char> {
        if vstd::utf8::valid_utf8(bytes) {
            vstd::utf8::decode_utf8(bytes)
        } else {
            seq![]
        }
    }

    /// The configuration loaded from a file's bytes, or from no file.
    pub open spec fn loaded(file: Option<Seq<u8>>) -> Config {
        match file {
            None => Config::initial(),
            Some(b) => Config::parsed(Config::file_text(b)),
        }
    }

    /// The three lines that `save` writes, without their line endings.
    pub open spec fn default_line(self) -> Seq<char> {
        "default="@ + self.default.key_view()
    }

    pub open spec fn timeout_line(self) -> Seq<char> {
        "timeout="@ + dec(self.timeout as nat)
    }

    pub open spec fn last_line(o: Os) -> Seq<char> {
        "last="@ + o.key_view()
    }

    /// The text that `save` writes: `default`, `timeout` and, when recorded,
    /// `last`, one `key=value` line each.
    pub open spec fn text(self) -> Seq<char> {
        self.default_line() + seq!['\n'] + self.timeout_line() + seq!['\n'] + match self.last {
            Some(o) => Config::last_line(o) + seq!['\n'],
            None => seq![],
        }
    }

    /// Reads the configuration from the config file's bytes (`None` when the
    /// file could not be read), falling back to the defaults for anything
    /// missing or malformed.
    pub fn load(file: Option<&[u8]>) -> (r: Config)
        ensures
            r == Config::loaded(
                match file {
                    Some(b) => Some(b@),
                    None => None,
                },
            ),
    {
        let mut cfg = Config::default();
        let bytes = match file {
            Some(b) => b,
            None => {
                return cfg;
            },
        };
        let text: Vec<char> = match utf8_text(bytes) {
            Some(s) => chars_of(s),
            None => Vec::new(),
        };
        assert(text@ == Config::file_text(bytes@));
        let ls = lines_of(&text);
        let ghost all = lines(text@);
        let ghost f = |c: Config, l: Seq<char>| c.with_line(l);
        let mut i: usize = 0;
        assert(all.take(0) =~= Seq::<Seq<char>>::empty());
        while i < ls.len()
            invariant
                i <= ls.len(),
                ls@.len() == all.len(),
                forall|k: int| 0 <= k < ls@.len() ==> (#[trigger] ls@[k])@ == all[k],
                f == (|c: Config, l: Seq<char>| c.with_line(l)),
                cfg == all.take(i as int).fold_left(Config::initial(), f),
            decreases ls.len() - i,
        {
            cfg.apply_line(&ls[i]);
            proof {
                assert(all.take(i + 1).drop_last() =~= all.take(i as int));
            }
            i = i + 1;
        }
        assert(all.take(ls.len() as int) =~= all);
        cfg
    }

    /// Reads one `key=value` line into the configuration.
    pub fn apply_line(&mut self, line: &Vec<char>)
        ensures
            *final(self) == old(self).with_line(line@),
    {
        if let Some((k, v)) = split_once_chars(line, '=') {
            let key = trim_chars(&k);
            if chars_eq_str(&key, "default") {
                if let Some(o) = Os::parse_chars(&v) {
                    self.default = o;
                }
            } else if chars_eq_str(&key, "timeout") {
                let value = trim_chars(&v);
                match parse_u32(&value) {
                    Some(t) => {
                        if t <= 255 {
                            self.timeout = if t < 60 {
                                t as u8
                            } else {
                                60
                            };
                        }
                    },
                    None => {},
                }
            } else if chars_eq_str(&key, "last") {
                self.last = Os::parse_chars(&v);
            }
        }
    }

    /// The text of the config file, as the picker persists it.
    pub fn to_text(&self) -> (r: String)
        ensures
            r@ == self.text(),
    {
        let mut s = String::new();
        push_str(&mut s, "default=");
        push_str(&mut s, self.default.key());
        push_char(&mut s, '\n');
        push_str(&mut s, "timeout=");
        push_decimal(&mut s, self.timeout as u64);
        push_char(&mut s, '\n');
        if let Some(last) = self.last {
            push_str(&mut s, "last=");
            push_str(&mut s, last.key());
            push_char(&mut s, '\n');
        }
        assert(s@ =~= self.text());
        s
    }
}

impl Default for Config {
    fn default() -> (r: Config)
        ensures
            r == Config::initial(),
    {
        Config { default: Os::SteamOs, timeout: 5, last: None }
    }
}

// ---------------------------------------------------------------------------
// Laws
// ---------------------------------------------------------------------------

proof fn lemma_digit_char(d: nat)
    requires
        d < 10,
    ensures
        digit_char(d) as u32 == d + 48,
        is_digit(digit_char(d)),
{
}

proof fn lemma_dec_digits(n: nat)
    ensures
        dec(n).len() > 0,
        forall|i: int| 0 <= i < dec(n).len() ==> is_digit(#[trigger] dec(n)[i]),
        unsigned_digits(dec(n)) == dec(n),
        digits_value(dec(n)) == n,
    decreases n,
{
    lemma_digit_char(n % 10);
    if n >= 10 {
        lemma_dec_digits(n / 10);
        let d = dec(n);
        assert(d.drop_last() =~= dec(n / 10));
        assert(d.last() == digit_char(n % 10));
        assert(digits_value(d) == digits_value(dec(n / 10)) * 10 + ((d.last() as u32) - 48) as nat);
        assert((n / 10) * 10 + n % 10 == n);
        assert(d[0] == dec(n / 10)[0]);
        assert forall|i: int| 0 <= i < d.len() implies is_digit(#[trigger] d[i]) by {
            if i < d.len() - 1 {
                assert(d[i] == dec(n / 10)[i]);
            }
        }
    } else {
        let d = dec(n);
        assert(d.drop_last() =~= Seq::<char>::empty());
        assert(digits_value(d.drop_last()) == 0);
        assert(d.last() == digit_char(n));
        assert(digits_value(d) == digits_value(d.drop_last()) * 10 + ((d.last() as u32) - 48) as nat);
    }
}

/// A run of digits reads back as the number it spells.
proof fn lemma_parse_dec(n: nat)
    ensures
        parse_unsigned(dec(n)) == Some(n),
        trim(dec(n)) == dec(n),
        find_char(dec(n), '\n') is None,
        find_char(dec(n), '=') is None,
{
    lemma_dec_digits(n);
    let d = dec(n);
    assert(is_digit(d[0]));
    assert(is_digit(d.last()));
    assert(trim_start(d) == d);
    assert(trim_end(d) == d);
    lemma_find_char(d, '\n');
    lemma_find_char(d, '=');
    if let Some(i) = find_char(d, '\n') {
        assert(is_digit(d[i]));
    }
    if let Some(i) = find_char(d, '=') {
        assert(is_digit(d[i]));
    }
}

proof fn lemma_lines_cons(a: Seq<char>, rest: Seq<char>)
    requires
        forall|k: int| 0 <= k < a.len() ==> a[k] != '\n',
        a.len() == 0 || a.last() != '\r',
    ensures
        lines(a + seq!['\n'] + rest) == seq![a] + lines(rest),
{
    let s = a + seq!['\n'] + rest;
    assert forall|k: int| 0 <= k < a.len() implies s[k] != '\n' by {
        assert(s[k] == a[k]);
    }
    assert(s[a.len() as int] == '\n');
    lemma_find_char_at(s, '\n', a.len() as int);
    assert(s.take(a.len() as int) =~= a);
    assert(s.skip(a.len() as int + 1) =~= rest);
}

proof fn lemma_key_value_line(key: Seq<char>, value: Seq<char>)
    requires
        forall|k: int| 0 <= k < key.len() ==> key[k] != '=',
    ensures
        split_once(key + seq!['='] + value, '=') == Some((key, value)),
{
    let s = key + seq!['='] + value;
    assert forall|k: int| 0 <= k < key.len() implies s[k] != '=' by {
        assert(s[k] == key[k]);
    }
    assert(s[key.len() as int] == '=');
    lemma_find_char_at(s, '=', key.len() as int);
    assert(s.take(key.len() as int) =~= key);
    assert(s.skip(key.len() as int + 1) =~= value);
}

proof fn lemma_os_key(o: Os)
    ensures
        os_named(trim(o.key_view())) == Some(o),
        forall|k: int| 0 <= k < o.key_view().len() ==> o.key_view()[k] != '\n',
        o.key_view().len() > 0,
        o.key_view().last() != '\r',
{
    reveal_strlit("steamos");
    reveal_strlit("windows");
    let v = o.key_view();
    assert(trim_start(v) == v);
    assert(trim_end(v) == v);
}

proof fn lemma_fold_timeout(ls: Seq<Seq<char>>, c: Config)
    requires
        c.timeout <= 60,
    ensures
        ls.fold_left(c, |c: Config, l: Seq<char>| c.with_line(l)).timeout <= 60,
    decreases ls.len(),
{
    if ls.len() > 0 {
        lemma_fold_timeout(ls.drop_last(), c);
    }
}

/// Whatever file the picker finds (or fails to read), the countdown it loads
/// is at most 60 seconds.
pub proof fn law_loaded_timeout_capped(file: Option<Seq<u8>>)
    ensures
        Config::loaded(file).timeout <= MAX_TIMEOUT,
{
    if let Some(b) = file {
        lemma_fold_timeout(lines(Config::file_text(b)), Config::initial());
    }
}

/// Reading back what `save` wrote gives the saved configuration, with the
/// countdown capped at 60 seconds.
pub proof fn law_text_round_trip(c: Config)
    ensures
        Config::parsed(c.text()) == (Config {
            timeout: if c.timeout < 60 {
                c.timeout
            } else {
                60
            },
            ..c
        }),
{
    reveal_strlit("default=");
    reveal_strlit("timeout=");
    reveal_strlit("last=");
    reveal_strlit("default");
    reveal_strlit("timeout");
    reveal_strlit("last");
    let l1 = c.default_line();
    let l2 = c.timeout_line();
    let t = c.timeout as nat;
    lemma_parse_dec(t);
    lemma_os_key(c.default);
    // first line
    let dk = "default"@;
    assert("default="@ =~= dk + seq!['=']);
    assert(l1 =~= dk + seq!['='] + c.default.key_view());
    lemma_key_value_line(dk, c.default.key_view());
    assert(trim_start(dk) == dk);
    assert(trim_end(dk) == dk);
    assert forall|k: int| 0 <= k < l1.len() implies l1[k] != '\n' by {
        if k >= 8 {
            assert(l1[k] == c.default.key_view()[k - 8]);
        }
    }
    // second line
    let tk = "timeout"@;
    assert("timeout="@ =~= tk + seq!['=']);
    assert(l2 =~= tk + seq!['='] + dec(t));
    lemma_key_value_line(tk, dec(t));
    assert(trim_start(tk) == tk);
    assert(trim_end(tk) == tk);
    lemma_find_char(dec(t), '\n');
    assert forall|k: int| 0 <= k < l2.len() implies l2[k] != '\n' by {
        if k >= 8 {
            assert(l2[k] == dec(t)[k - 8]);
        }
    }
    lemma_dec_digits(t);
    assert(is_digit(dec(t).last()));
    assert(l2.last() == dec(t).last());
    let tail = match c.last {
        Some(o) => Config::last_line(o) + seq!['\n'],
        None => seq![],
    };
    assert(c.text() =~= l1 + seq!['\n'] + (l2 + seq!['\n'] + tail));
    lemma_lines_cons(l1, l2 + seq!['\n'] + tail);
    lemma_lines_cons(l2, tail);
    let f = |c: Config, l: Seq<char>| c.with_line(l);
    let c1 = Config::initial().with_line(l1);
    assert(c1 == Config { default: c.default, ..Config::initial() });
    let c2 = c1.with_line(l2);
    assert(parse_bounded(trim(dec(t)), 255) == Some(t));
    match c.last {
        None => {
            assert(tail.len() == 0);
            assert(lines(tail) =~= Seq::<Seq<char>>::empty());
            let ls = seq![l1, l2];
            assert(lines(c.text()) =~= ls);
            assert(ls.drop_last() =~= seq![l1]);
            assert(seq![l1].drop_last() =~= Seq::<Seq<char>>::empty());
            assert(Seq::<Seq<char>>::empty().fold_left(Config::initial(), f) == Config::initial());
            assert(seq![l1].fold_left(Config::initial(), f) == c1);
            assert(ls.fold_left(Config::initial(), f) == c2);
        },
        Some(o) => {
            let l3 = Config::last_line(o);
            lemma_os_key(o);
            let lk = "last"@;
            assert("last="@ =~= lk + seq!['=']);
            assert(l3 =~= lk + seq!['='] + o.key_view());
            lemma_key_value_line(lk, o.key_view());
            assert(trim_start(lk) == lk);
            assert(trim_end(lk) == lk);
            assert forall|k: int| 0 <= k < l3.len() implies l3[k] != '\n' by {
                if k >= 5 {
                    assert(l3[k] == o.key_view()[k - 5]);
                }
            }
            assert(tail =~= l3 + seq!['\n'] + Seq::<char>::empty());
            lemma_lines_cons(l3, Seq::<char>::empty());
            assert(lines(Seq::<char>::empty()) =~= Seq::<Seq<char>>::empty());
            let ls = seq![l1, l2, l3];
            assert(lines(c.text()) =~= ls);
            assert(ls.drop_last() =~= seq![l1, l2]);
            assert(seq![l1, l2].drop_last() =~= seq![l1]);
            assert(seq![l1].drop_last() =~= Seq::<Seq<char>>::empty());
            assert(Seq::<Seq<char>>::empty().fold_left(Config::initial(), f) == Config::initial());
            assert(seq![l1].fold_left(Config::initial(), f) == c1);
            assert(seq![l1, l2].fold_left(Config::initial(), f) == c2);
            assert(ls.fold_left(Config::initial(), f) == c2.with_line(l3));
        },
    }
}

} // verus!
