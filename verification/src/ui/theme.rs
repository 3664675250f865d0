//! Following the desktop's theme: the GTK theme name and whether a dark
//! style is preferred, from `GTK_THEME` and the GNOME interface settings.
use vstd::prelude::*;

use crate::text::{
    chars_contain_seq, chars_of, contains_seq, string_of, to_lowercase, trim, trim_chars,
    unicode_lowercase,
};

verus! {

pub open spec fn unquote_start(s: Seq<char>) -> Seq<char>
    decreases s.len(),
{
    if s.len() > 0 && s[0] == '\'' {
        unquote_start(s.drop_first())
    } else {
        s
    }
}

pub open spec fn unquote_end(s: Seq<char>) -> Seq<char>
    decreases s.len(),
{
    if s.len() > 0 && s.last() == '\'' {
        unquote_end(s.drop_last())
    } else {
        s
    }
}

/// A value as `gsettings get` prints it, trimmed and without the quotes
/// around it (`trim_matches('\'')`).
pub open spec fn gsettings_value(out: Seq<char>) -> Seq<char> {
    unquote_end(unquote_start(trim(out)))
}

fn unquote(s: &[char]) -> (r: Vec<char>)
    ensures
        r@ == unquote_end(unquote_start(s@)),
{
    let n = s.len();
    let mut a: usize = 0;
    assert(s@.subrange(0, n as int) =~= s@);
    while a < n && s[a] == '\''
        invariant
            n == s@.len(),
            a <= n,
            unquote_start(s@) == unquote_start(s@.subrange(a as int, n as int)),
        decreases n - a,
    {
        proof {
            assert(s@.subrange(a as int, n as int).drop_first() =~= s@.subrange(a + 1, n as int));
        }
        a += 1;
    }
    proof {
        let t = s@.subrange(a as int, n as int);
        if t.len() > 0 {
            assert(t[0] == s@[a as int]);
        }
        assert(unquote_start(t) == t);
    }
    let mut b: usize = n;
    while b > a && s[b - 1] == '\''
        invariant
            n == s@.len(),
            a <= b <= n,
            unquote_end(unquote_start(s@)) == unquote_end(s@.subrange(a as int, b as int)),
        decreases b - a,
    {
        proof {
            assert(s@.subrange(a as int, b as int).drop_last() =~= s@.subrange(a as int, b - 1));
        }
        b -= 1;
    }
    let mut r: Vec<char> = Vec::new();
    let mut i = a;
    while i < b
        invariant
            n == s@.len(),
            a <= i <= b <= n,
            r@ == s@.subrange(a as int, i as int),
        decreases b - i,
    {
        r.push(s[i]);
        proof {
            assert(s@.subrange(a as int, i + 1) =~= s@.subrange(a as int, i as int).push(s@[i as int]));
        }
        i += 1;
    }
    proof {
        let t = s@.subrange(a as int, b as int);
        if t.len() > 0 {
            assert(t.last() == s@[b - 1]);
        }
        assert(unquote_end(t) == t);
    }
    r
}

/// The GTK theme to use: `GTK_THEME` when it is set, else the value that
/// `gsettings get org.gnome.desktop.interface gtk-theme` printed, when it is
/// not empty.
pub open spec fn theme_choice(env_theme: Option<Seq<char>>, gsettings: Option<Seq<char>>) -> Option<Seq<char>> {
    match env_theme {
        Some(t) => Some(t),
        None => match gsettings {
            Some(out) => if gsettings_value(out).len() > 0 {
                Some(gsettings_value(out))
            } else {
                None
            },
            None => None,
        },
    }
}

pub open spec fn opt_view(o: Option<String>) -> Option<Seq<char>> {
    match o {
        Some(s) => Some(s@),
        None => None,
    }
}

pub fn system_gtk_theme(env_theme: Option<String>, gsettings: Option<String>) -> (r: Option<String>)
    ensures
        opt_view(r) == theme_choice(opt_view(env_theme), opt_view(gsettings)),
{
    match env_theme {
        Some(t) => Some(t),
        None => match gsettings {
            Some(out) => {
                let c = chars_of(out.as_str());
                let t = trim_chars(c.as_slice());
                let v = unquote(t.as_slice());
                if v.len() > 0 {
                    Some(string_of(v.as_slice()))
                } else {
                    None
                }
            },
            None => None,
        },
    }
}

/// Whether a dark style is preferred: with `GTK_THEME` set, when its name
/// holds `dark`; else by the `color-scheme` setting (`prefer-dark` is dark,
/// `default` or `prefer-light` is light); else when the `gtk-theme` setting
/// names a dark theme; else unknown. Names are compared in lower case.
pub open spec fn prefers_dark_spec(
    env_theme: Option<Seq<char>>,
    color_scheme: Option<Seq<char>>,
    gtk_theme: Option<Seq<char>>,
) -> Option<bool> {
    match env_theme {
        Some(t) => Some(contains_seq(unicode_lowercase(t), "dark"@)),
        None => {
            let scheme = match color_scheme {
                Some(v) => {
                    let l = unicode_lowercase(trim(v));
                    if contains_seq(l, "prefer-dark"@) {
                        Some(true)
                    } else if contains_seq(l, "default"@) || contains_seq(l, "prefer-light"@) {
                        Some(false)
                    } else {
                        None
                    }
                },
                None => None,
            };
            match scheme {
                Some(b) => Some(b),
                None => match gtk_theme {
                    Some(v) => if contains_seq(unicode_lowercase(trim(v)), "dark"@) {
                        Some(true)
                    } else {
                        None
                    },
                    None => None,
                },
            }
        },
    }
}

fn lower_contains(s: &str, needle: &str) -> (r: bool)
    ensures
        r == contains_seq(unicode_lowercase(s@), needle@),
{
    let l = to_lowercase(s);
    let c = chars_of(l.as_str());
    let n = chars_of(needle);
    chars_contain_seq(c.as_slice(), n.as_slice())
}

fn trimmed(s: &str) -> (r: String)
    ensures
        r@ == trim(s@),
{
    let c = chars_of(s);
    let t = trim_chars(c.as_slice());
    string_of(t.as_slice())
}

pub fn prefers_dark(
    env_theme: Option<String>,
    color_scheme: Option<String>,
    gtk_theme: Option<String>,
) -> (r: Option<bool>)
    ensures
        r == prefers_dark_spec(opt_view(env_theme), opt_view(color_scheme), opt_view(gtk_theme)),
{
    match env_theme {
        Some(t) => {
            return Some(lower_contains(t.as_str(), "dark"));
        },
        None => {},
    }
    match color_scheme {
        Some(v) => {
            let t = trimmed(v.as_str());
            if lower_contains(t.as_str(), "prefer-dark") {
                return Some(true);
            }
            if lower_contains(t.as_str(), "default") || lower_contains(t.as_str(), "prefer-light") {
                return Some(false);
            }
        },
        None => {},
    }
    match gtk_theme {
        Some(v) => {
            let t = trimmed(v.as_str());
            if lower_contains(t.as_str(), "dark") {
                return Some(true);
            }
            None
        },
        None => None,
    }
}

} // verus!
