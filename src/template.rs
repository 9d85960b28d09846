//! `{{name}}` placeholders and shell-safe quoting.
use vstd::prelude::*;

use crate::name::is_ascii_alnum;
use crate::strmap::StringMap;

verus! {

/// Characters allowed in a placeholder's variable name.
pub open spec fn is_var_char(c: char) -> bool {
    is_ascii_alnum(c) || c == '-' || c == '_' || c == ':'
}

/// The length of the run of variable-name characters at the start of `s`.
pub open spec fn var_run(s: Seq<char>) -> nat
    decreases s.len(),
{
    if s.len() > 0 && is_var_char(s[0]) {
        1 + var_run(s.drop_first())
    } else {
        0
    }
}

/// When `s` starts with a placeholder `{{name}}`, the length of `name`.
pub open spec fn placeholder_at_start(s: Seq<char>) -> Option<nat> {
    if s.len() >= 2 && s[0] == '{' && s[1] == '{' {
        let n = var_run(s.subrange(2, s.len() as int));
        if n >= 1 && s.len() >= n + 4 && s[n + 2int] == '}' && s[n + 3int] == '}' {
            Some(n)
        } else {
            None
        }
    } else {
        None
    }
}

/// What a variable name is replaced with: its value, or the bare name when unknown.
pub open spec fn resolve_var(name: Seq<char>, vars: Map<Seq<char>, Seq<char>>) -> Seq<char> {
    if vars.contains_key(name) {
        vars[name]
    } else {
        name
    }
}

/// A single left-to-right scan of `s` that replaces each placeholder by its variable.
pub open spec fn substitute(s: Seq<char>, vars: Map<Seq<char>, Seq<char>>) -> Seq<char>
    decreases s.len(),
{
    if s.len() == 0 {
        Seq::empty()
    } else {
        match placeholder_at_start(s) {
            Some(n) => resolve_var(s.subrange(2, n + 2int), vars) + substitute(
                s.subrange(n + 4int, s.len() as int),
                vars,
            ),
            None => seq![s[0]] + substitute(s.drop_first(), vars),
        }
    }
}

proof fn lemma_var_run(s: Seq<char>, a: int, j: int)
    requires
        0 <= a <= j <= s.len(),
        forall|k: int| a <= k < j ==> is_var_char(#[trigger] s[k]),
        j == s.len() || !is_var_char(s[j]),
    ensures
        var_run(s.subrange(a, s.len() as int)) == j - a,
    decreases j - a,
{
    let t = s.subrange(a, s.len() as int);
    if a < j {
        assert(t.drop_first() =~= s.subrange(a + 1, s.len() as int));
        lemma_var_run(s, a + 1, j);
    } else if j < s.len() {
        assert(t[0] == s[j]);
    }
}

/// The length of the placeholder name when one starts at position `i` of `s`.
fn placeholder_len(s: &str, n: usize, i: usize) -> (r: Option<usize>)
    requires
        n == s@.len(),
        i < n,
    ensures
        match r {
            Some(k) => placeholder_at_start(s@.subrange(i as int, n as int)) == Some(k as nat),
            None => placeholder_at_start(s@.subrange(i as int, n as int)) is None,
        },
{
    let ghost t = s@.subrange(i as int, n as int);
    if i + 1 >= n || s.get_char(i) != '{' || s.get_char(i + 1) != '{' {
        return None;
    }
    let mut j: usize = i + 2;
    while j < n && is_var_char_exec(s.get_char(j))
        invariant
            n == s@.len(),
            i + 2 <= j <= n,
            forall|k: int| i + 2 <= k < j ==> is_var_char(#[trigger] s@[k]),
        decreases n - j,
    {
        j += 1;
    }
    proof {
        lemma_var_run(s@, i + 2, j as int);
        assert(t.subrange(2, t.len() as int) =~= s@.subrange(i + 2, n as int));
    }
    let k = j - (i + 2);
    if k >= 1 && j < n && j + 1 < n && s.get_char(j) == '}' && s.get_char(j + 1) == '}' {
        Some(k)
    } else {
        None
    }
}

fn is_var_char_exec(c: char) -> (r: bool)
    ensures
        r == is_var_char(c),
{
    ('a' <= c && c <= 'z') || ('A' <= c && c <= 'Z') || ('0' <= c && c <= '9') || c == '-' || c
        == '_' || c == ':'
}

/// Substitutes variables written `{{name}}` with their values in `vars`; a name with no
/// value is replaced by the bare name. Names are made of ASCII letters, digits, `-`, `_`
/// and `:`, with no whitespace inside the braces.
pub fn var_string_replace(string: &str, vars: &StringMap) -> (r: String)
    ensures
        r@ == substitute(string@, vars@),
{
    let n = string.unicode_len();
    let mut out = String::new();
    let mut i: usize = 0;
    proof {
        assert(string@.subrange(0, n as int) =~= string@);
        assert(out@ + substitute(string@, vars@) =~= substitute(string@, vars@));
    }
    while i < n
        invariant
            n == string@.len(),
            i <= n,
            out@ + substitute(string@.subrange(i as int, n as int), vars@) == substitute(
                string@,
                vars@,
            ),
        decreases n - i,
    {
        let ghost t = string@.subrange(i as int, n as int);
        match placeholder_len(string, n, i) {
            Some(k) => {
                let name = string.substring_char(i + 2, i + 2 + k);
                let ghost before = out@;
                match vars.get(name) {
                    Some(v) => out.append(v.as_str()),
                    None => out.append(name),
                }
                proof {
                    assert(name@ =~= t.subrange(2, k + 2));
                    assert(t.subrange(k + 4, t.len() as int) =~= string@.subrange(
                        i + k + 4,
                        n as int,
                    ));
                    assert(out@ == before + resolve_var(name@, vars@));
                    assert(before + (resolve_var(name@, vars@) + substitute(
                        string@.subrange(i + k + 4, n as int),
                        vars@,
                    )) =~= out@ + substitute(string@.subrange(i + k + 4, n as int), vars@));
                }
                i = i + k + 4;
            },
            None => {
                let c = string.substring_char(i, i + 1);
                let ghost before = out@;
                out.append(c);
                proof {
                    assert(c@ =~= seq![t[0]]);
                    assert(t.drop_first() =~= string@.subrange(i + 1, n as int));
                    assert(before + (seq![t[0]] + substitute(
                        string@.subrange(i + 1, n as int),
                        vars@,
                    )) =~= out@ + substitute(string@.subrange(i + 1, n as int), vars@));
                }
                i = i + 1;
            },
        }
    }
    proof {
        assert(string@.subrange(n as int, n as int) =~= Seq::<char>::empty());
        assert(out@ + Seq::<char>::empty() =~= out@);
    }
    out
}

/// Whether the character at `i` is a double quote that no backslash precedes.
pub open spec fn unescaped_quote_at(s: Seq<char>, i: int) -> bool {
    s[i] == '"' && (i == 0 || s[i - 1] != '\\')
}

/// The output for the character at `i`: a backslash-escaped quote, or the character.
pub open spec fn safe_piece(s: Seq<char>, i: int) -> Seq<char> {
    if unescaped_quote_at(s, i) {
        seq!['\\', '"']
    } else {
        seq![s[i]]
    }
}

/// The escaped form of the first `k` characters of `s`.
pub open spec fn safe_prefix(s: Seq<char>, k: int) -> Seq<char>
    decreases k,
{
    if k <= 0 {
        Seq::empty()
    } else {
        safe_prefix(s, k - 1) + safe_piece(s, k - 1)
    }
}

/// `s` with a backslash inserted before every double quote that no backslash precedes.
pub open spec fn safe_text(s: Seq<char>) -> Seq<char> {
    safe_prefix(s, s.len() as int)
}

/// Every double quote of `s` has a backslash right before it.
pub open spec fn all_quotes_escaped(s: Seq<char>) -> bool {
    forall|i: int| 0 <= i < s.len() && #[trigger] s[i] == '"' ==> i > 0 && s[i - 1] == '\\'
}

/// Backslash-escapes every double quote of `script_string` that is not already escaped, so
/// that a substituted value cannot leave the shell's quoting.
pub fn make_safe(script_string: &str) -> (r: String)
    ensures
        r@ == safe_text(script_string@),
{
    let n = script_string.unicode_len();
    let mut out = String::new();
    let mut i: usize = 0;
    let mut prev_backslash = false;
    while i < n
        invariant
            n == script_string@.len(),
            i <= n,
            out@ == safe_prefix(script_string@, i as int),
            i > 0 ==> prev_backslash == (script_string@[i - 1] == '\\'),
            i == 0 ==> !prev_backslash,
        decreases n - i,
    {
        let c = script_string.get_char(i);
        if c == '"' && !prev_backslash {
            out.append("\\\"");
            proof {
                reveal_strlit("\\\"");
            }
        } else {
            out.append(script_string.substring_char(i, i + 1));
        }
        assert(out@ =~= safe_prefix(script_string@, i + 1));
        prev_backslash = c == '\\';
        i += 1;
    }
    out
}

proof fn lemma_prefix_len(s: Seq<char>, k: int)
    requires
        0 <= k <= s.len(),
    ensures
        safe_prefix(s, k).len() >= k,
    decreases k,
{
    if k > 0 {
        lemma_prefix_len(s, k - 1);
    }
}

proof fn lemma_prefix_escaped(s: Seq<char>, k: int)
    requires
        0 <= k <= s.len(),
    ensures
        all_quotes_escaped(safe_prefix(s, k)),
        k > 0 && s[k - 1] == '\\' ==> safe_prefix(s, k).last() == '\\',
        k > 0 && s[k - 1] != '\\' ==> safe_prefix(s, k).len() > 0 && safe_prefix(s, k).last()
            != '\\',
    decreases k,
{
    if k > 0 {
        lemma_prefix_escaped(s, k - 1);
        lemma_prefix_len(s, k - 1);
        let p = safe_prefix(s, k - 1);
        let q = safe_prefix(s, k);
        assert(q == p + safe_piece(s, k - 1));
        assert forall|i: int| 0 <= i < q.len() && #[trigger] q[i] == '"' implies i > 0 && q[i - 1]
            == '\\' by {
            if i < p.len() {
                assert(q[i] == p[i]);
                assert(q[i - 1] == p[i - 1]);
            } else if unescaped_quote_at(s, k - 1) {
                assert(q[i - 1] == '\\');
            } else {
                assert(i == p.len());
                assert(s[k - 1] == '"');
                assert(k - 1 > 0 && s[k - 2] == '\\');
                assert(p.last() == '\\');
            }
        }
    }
}

proof fn lemma_safe_fixed_prefix(s: Seq<char>, k: int)
    requires
        all_quotes_escaped(s),
        0 <= k <= s.len(),
    ensures
        safe_prefix(s, k) == s.subrange(0, k),
    decreases k,
{
    if k > 0 {
        lemma_safe_fixed_prefix(s, k - 1);
        assert(!unescaped_quote_at(s, k - 1));
        assert(s.subrange(0, k - 1) + seq![s[k - 1]] =~= s.subrange(0, k));
    } else {
        assert(s.subrange(0, 0) =~= Seq::<char>::empty());
    }
}

/// Escaping is idempotent: after one pass every quote is escaped, so a second pass changes
/// nothing.
pub proof fn lemma_make_safe_idempotent(s: Seq<char>)
    ensures
        all_quotes_escaped(safe_text(s)),
        safe_text(safe_text(s)) == safe_text(s),
{
    lemma_prefix_escaped(s, s.len() as int);
    let t = safe_text(s);
    lemma_safe_fixed_prefix(t, t.len() as int);
    assert(t.subrange(0, t.len() as int) =~= t);
}

/// Input without double quotes comes out of escaping unchanged.
pub proof fn lemma_make_safe_unquoted(s: Seq<char>)
    requires
        forall|i: int| 0 <= i < s.len() ==> s[i] != '"',
    ensures
        safe_text(s) == s,
{
    lemma_safe_fixed_prefix(s, s.len() as int);
    assert(s.subrange(0, s.len() as int) =~= s);
}

} // verus!
