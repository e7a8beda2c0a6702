//! Reading the platform's os-release records: given the lines of such a
//! file, picks the distribution name and version out of `ID=` and
//! `VERSION_ID=` entries.  Reading the file itself is the embedding
//! application's work.

use vstd::prelude::*;
use crate::telemetry::strings_view;

verus! {

/// Splits a line at its first `'='`: the key before it, the value after.
/// `None` when the line has no `'='` at all.
pub open spec fn spec_split_at_first_eq(line: Seq<char>) -> Option<(Seq<char>, Seq<char>)>
    decreases line.len(),
{
    if line.len() == 0 {
        None
    } else if line[0] == '=' {
        Some((Seq::<char>::empty(), line.drop_first()))
    } else {
        match spec_split_at_first_eq(line.drop_first()) {
            Option::None => None,
            Option::Some((k, v)) => Some((seq![line[0]] + k, v)),
        }
    }
}

proof fn lemma_split_at_first_eq_found(line: Seq<char>, i: int)
    requires
        0 <= i < line.len(),
        line[i] == '=',
        forall|k: int| 0 <= k < i ==> line[k] != '=',
    ensures
        spec_split_at_first_eq(line) == Some((line.take(i), line.skip(i + 1))),
    decreases i,
{
    if i == 0 {
        assert(line.take(0) =~= Seq::<char>::empty());
        assert(line.skip(1) =~= line.drop_first());
    } else {
        assert(line.drop_first()[i - 1] == line[i]);
        assert(forall|k: int| 0 <= k < i - 1 ==> line.drop_first()[k] == line[k + 1] && line[k
            + 1] != '=');
        lemma_split_at_first_eq_found(line.drop_first(), i - 1);
        assert(seq![line[0]] + line.drop_first().take(i - 1) =~= line.take(i));
        assert(line.drop_first().skip(i) =~= line.skip(i + 1));
    }
}

proof fn lemma_split_at_first_eq_absent(line: Seq<char>)
    requires
        forall|k: int| 0 <= k < line.len() ==> line[k] != '=',
    ensures
        spec_split_at_first_eq(line) is None,
    decreases line.len(),
{
    if line.len() > 0 {
        assert(forall|k: int| 0 <= k < line.drop_first().len() ==> line.drop_first()[k]
            == line[k + 1] && line[k + 1] != '=');
        lemma_split_at_first_eq_absent(line.drop_first());
    }
}

/// The value with every leading and trailing `'"'` removed.
pub open spec fn spec_trim_quotes(s: Seq<char>) -> Seq<char>
    decreases s.len(),
{
    if s.len() > 0 && s[0] == '"' {
        spec_trim_quotes(s.drop_first())
    } else if s.len() > 0 && s.last() == '"' {
        spec_trim_quotes(s.drop_last())
    } else {
        s
    }
}

proof fn lemma_trim_quotes_range(s: Seq<char>, lo: int, hi: int)
    requires
        0 <= lo <= hi <= s.len(),
        forall|k: int| 0 <= k < lo ==> s[k] == '"',
        forall|k: int| hi <= k < s.len() ==> s[k] == '"',
        lo < hi ==> s[lo] != '"' && s[hi - 1] != '"',
    ensures
        spec_trim_quotes(s) == s.subrange(lo, hi),
    decreases s.len(),
{
    if lo == hi {
        // Everything in `s` is a quote; trimming strips it to nothing.
        if s.len() > 0 {
            assert(s[0] == '"');
            assert(forall|k: int| 0 <= k < s.drop_first().len() ==> s.drop_first()[k] == s[k + 1]
                && s[k + 1] == '"');
            lemma_trim_quotes_range(s.drop_first(), 0, 0);
            assert(s.drop_first().subrange(0, 0) =~= s.subrange(lo, hi));
        } else {
            assert(spec_trim_quotes(s) =~= s.subrange(lo, hi));
        }
    } else {
        if s[0] == '"' {
            assert(lo > 0);
            assert(forall|k: int| 0 <= k < lo - 1 ==> s.drop_first()[k] == s[k + 1] && s[k + 1]
                == '"');
            assert(forall|k: int| hi - 1 <= k < s.drop_first().len() ==> s.drop_first()[k] == s[k
                + 1] && s[k + 1] == '"');
            assert(s.drop_first()[lo - 1] == s[lo]);
            assert(s.drop_first()[hi - 2] == s[hi - 1]);
            lemma_trim_quotes_range(s.drop_first(), lo - 1, hi - 1);
            assert(s.drop_first().subrange(lo - 1, hi - 1) =~= s.subrange(lo, hi));
        } else if s.last() == '"' {
            assert(hi < s.len());
            assert(forall|k: int| 0 <= k < lo ==> s.drop_last()[k] == s[k]);
            assert(forall|k: int| hi <= k < s.drop_last().len() ==> s.drop_last()[k] == s[k]);
            lemma_trim_quotes_range(s.drop_last(), lo, hi);
            assert(s.drop_last().subrange(lo, hi) =~= s.subrange(lo, hi));
        } else {
            assert(lo == 0);
            assert(hi == s.len());
            assert(spec_trim_quotes(s) =~= s.subrange(lo, hi));
        }
    }
}

/// The trimmed value of the last line whose key is `key`, if any line has
/// that key: later entries override earlier ones.
pub open spec fn spec_last_value(lines: Seq<Seq<char>>, key: Seq<char>) -> Option<Seq<char>>
    decreases lines.len(),
{
    if lines.len() == 0 {
        None
    } else {
        let here = match spec_split_at_first_eq(lines.last()) {
            Option::Some((k, v)) => if k == key {
                Some(spec_trim_quotes(v))
            } else {
                None
            },
            Option::None => None,
        };
        if here is Some {
            here
        } else {
            spec_last_value(lines.drop_last(), key)
        }
    }
}

/// `name version` from the `ID=` and `VERSION_ID=` entries, each falling
/// back to `unknown` when absent.
pub open spec fn spec_os_version_string(lines: Seq<Seq<char>>) -> Seq<char> {
    (match spec_last_value(lines, "ID"@) {
        Option::Some(v) => v,
        Option::None => "unknown"@,
    }) + " "@ + (match spec_last_value(lines, "VERSION_ID"@) {
        Option::Some(v) => v,
        Option::None => "unknown"@,
    })
}

/// Splits one line at its first `'='`.
fn split_line_at_eq(line: &str) -> (r: Option<(String, String)>)
    ensures
        match r {
            Some((k, v)) => spec_split_at_first_eq(line@) == Some((k@, v@)),
            None => spec_split_at_first_eq(line@) is None,
        },
{
    let n = line.unicode_len();
    let mut i: usize = 0;
    while i < n
        invariant
            i <= n == line@.len(),
            forall|k: int| 0 <= k < i ==> line@[k] != '=',
        decreases n - i,
    {
        if line.get_char(i) == '=' {
            proof {
                lemma_split_at_first_eq_found(line@, i as int);
            }
            let key = line.substring_char(0, i).to_owned();
            let value = line.substring_char(i + 1, n).to_owned();
            proof {
                assert(line@.subrange(0, i as int) =~= line@.take(i as int));
                assert(line@.subrange(i + 1, n as int) =~= line@.skip(i + 1));
            }
            return Some((key, value));
        }
        i = i + 1;
    }
    proof {
        lemma_split_at_first_eq_absent(line@);
    }
    None
}

/// Strips every leading and trailing `'"'` from a value.
fn trim_quotes(s: &str) -> (r: String)
    ensures
        r@ == spec_trim_quotes(s@),
{
    let n = s.unicode_len();
    let mut lo: usize = 0;
    while lo < n && s.get_char(lo) == '"'
        invariant
            lo <= n == s@.len(),
            forall|k: int| 0 <= k < lo ==> s@[k] == '"',
        decreases n - lo,
    {
        lo = lo + 1;
    }
    let mut hi: usize = n;
    while hi > lo && s.get_char(hi - 1) == '"'
        invariant
            lo <= hi <= n == s@.len(),
            forall|k: int| 0 <= k < lo ==> s@[k] == '"',
            forall|k: int| hi <= k < n ==> s@[k] == '"',
        decreases hi,
    {
        hi = hi - 1;
    }
    proof {
        lemma_trim_quotes_range(s@, lo as int, hi as int);
    }
    s.substring_char(lo, hi).to_owned()
}

/// Reads the distribution name and version out of os-release lines: the
/// values of the last `ID=` and `VERSION_ID=` entries, quotes stripped,
/// `unknown` where an entry is missing, joined by a space.
pub fn os_version_from_release_lines(lines: &Vec<String>) -> (r: String)
    ensures
        r@ == spec_os_version_string(strings_view(lines@)),
{
    let ghost views = strings_view(lines@);
    let mut name: Option<String> = None;
    let mut version: Option<String> = None;
    let mut i: usize = 0;
    while i < lines.len()
        invariant
            i <= lines.len(),
            views == strings_view(lines@),
            views.len() == lines@.len(),
            (match name {
                Option::Some(v) => spec_last_value(views.take(i as int), "ID"@) == Some(v@),
                Option::None => spec_last_value(views.take(i as int), "ID"@) is None,
            }),
            (match version {
                Option::Some(v) => spec_last_value(views.take(i as int), "VERSION_ID"@) == Some(
                    v@,
                ),
                Option::None => spec_last_value(views.take(i as int), "VERSION_ID"@) is None,
            }),
        decreases lines.len() - i,
    {
        proof {
            reveal_strlit("ID");
            reveal_strlit("VERSION_ID");
            assert("ID"@.len() == 2);
            assert("VERSION_ID"@.len() == 10);
            assert(views[i as int] == lines@[i as int]@);
            assert(views.take(i + 1).drop_last() =~= views.take(i as int));
            assert(views.take(i + 1).last() == views[i as int]);
        }
        match split_line_at_eq(lines[i].as_str()) {
            Some((key, value)) => {
                let id_key = "ID".to_owned();
                let version_key = "VERSION_ID".to_owned();
                if key == id_key {
                    name = Some(trim_quotes(value.as_str()));
                } else if key == version_key {
                    version = Some(trim_quotes(value.as_str()));
                }
            },
            None => {},
        }
        i = i + 1;
    }
    proof {
        assert(views.take(lines@.len() as int) =~= views);
    }
    let mut r = match name {
        Some(v) => v,
        None => "unknown".to_owned(),
    };
    r.append(" ");
    match version {
        Some(v) => r.append(v.as_str()),
        None => r.append("unknown"),
    }
    r
}

} // verus!
