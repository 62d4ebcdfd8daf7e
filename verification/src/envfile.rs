//! Reading `.env` files and showing environment settings with secrets masked.
use vstd::prelude::*;
use crate::text::{chars_of, contains_str, contains_text, push_char, starts_with_str, starts_with_text, string_of};

verus! {

/// A line with one trailing carriage return removed, if it has one.
pub open spec fn without_cr(l: Seq<char>) -> Seq<char> {
    if l.len() > 0 && l.last() == '\r' {
        l.drop_last()
    } else {
        l
    }
}

/// The lines completed so far in a text, and the unfinished last line.
pub open spec fn line_scan(s: Seq<char>) -> (Seq<Seq<char>>, Seq<char>)
    decreases s.len(),
{
    if s.len() == 0 {
        (Seq::empty(), Seq::empty())
    } else {
        let (done, cur) = line_scan(s.drop_last());
        if s.last() == '\n' {
            (done.push(without_cr(cur)), Seq::empty())
        } else {
            (done, cur.push(s.last()))
        }
    }
}

/// The lines of a text as `str::lines` gives them: split at `\n`, a `\r` before the `\n`
/// removed, and no empty line after a final line break.
pub open spec fn text_lines(s: Seq<char>) -> Seq<Seq<char>> {
    let (done, cur) = line_scan(s);
    if cur.len() == 0 {
        done
    } else {
        done.push(cur)
    }
}

/// The views of a list of strings.
pub open spec fn string_views(v: Seq<String>) -> Seq<Seq<char>> {
    v.map_values(|x: String| x@)
}

/// The lines of a text.
pub fn split_lines(s: &str) -> (r: Vec<String>)
    ensures
        string_views(r@) == text_lines(s@),
{
    let chars = chars_of(s);
    let mut done: Vec<String> = Vec::new();
    let mut cur: Vec<char> = Vec::new();
    let mut i: usize = 0;
    assert(chars@.subrange(0, 0) =~= Seq::<char>::empty());
    while i < chars.len()
        invariant
            chars@ == s@,
            i <= chars@.len(),
            (string_views(done@), cur@) == line_scan(chars@.subrange(0, i as int)),
        decreases chars@.len() - i,
    {
        let ghost prefix = chars@.subrange(0, i + 1);
        assert(prefix.drop_last() =~= chars@.subrange(0, i as int));
        let c = chars[i];
        if c == '\n' {
            if cur.len() > 0 && cur[cur.len() - 1] == '\r' {
                cur.pop();
            }
            let line = string_of(cur.as_slice());
            done.push(line);
            cur = Vec::new();
            assert(string_views(done@) =~= line_scan(prefix).0);
            assert(cur@ =~= line_scan(prefix).1);
        } else {
            cur.push(c);
        }
        i += 1;
    }
    assert(chars@.subrange(0, i as int) =~= s@);
    if cur.len() > 0 {
        let line = string_of(cur.as_slice());
        done.push(line);
        assert(string_views(done@) =~= text_lines(s@));
    }
    done
}

/// White space as `char::is_whitespace` defines it (the Unicode `White_Space` property).
pub open spec fn is_white_space(c: char) -> bool {
    ||| ('\u{9}' <= c && c <= '\u{d}')
    ||| c == ' '
    ||| c == '\u{85}'
    ||| c == '\u{a0}'
    ||| c == '\u{1680}'
    ||| ('\u{2000}' <= c && c <= '\u{200a}')
    ||| c == '\u{2028}'
    ||| c == '\u{2029}'
    ||| c == '\u{202f}'
    ||| c == '\u{205f}'
    ||| c == '\u{3000}'
}

fn white_space(c: char) -> (b: bool)
    ensures
        b == is_white_space(c),
{
    ('\u{9}' <= c && c <= '\u{d}') || c == ' ' || c == '\u{85}' || c == '\u{a0}' || c
        == '\u{1680}' || ('\u{2000}' <= c && c <= '\u{200a}') || c == '\u{2028}' || c
        == '\u{2029}' || c == '\u{202f}' || c == '\u{205f}' || c == '\u{3000}'
}

/// A text without its leading white space.
pub open spec fn trim_start_text(s: Seq<char>) -> Seq<char>
    decreases s.len(),
{
    if s.len() > 0 && is_white_space(s[0]) {
        trim_start_text(s.drop_first())
    } else {
        s
    }
}

/// A text without its trailing white space.
pub open spec fn trim_end_text(s: Seq<char>) -> Seq<char>
    decreases s.len(),
{
    if s.len() > 0 && is_white_space(s.last()) {
        trim_end_text(s.drop_last())
    } else {
        s
    }
}

/// A text without leading and trailing white space, as `str::trim` gives it.
pub open spec fn trim_text(s: Seq<char>) -> Seq<char> {
    trim_end_text(trim_start_text(s))
}

/// Removes leading and trailing white space.
pub fn trim(s: &[char]) -> (r: String)
    ensures
        r@ == trim_text(s@),
{
    let mut start: usize = 0;
    assert(s@.subrange(0, s@.len() as int) =~= s@);
    while start < s.len() && white_space(s[start])
        invariant
            start <= s@.len(),
            trim_start_text(s@) == trim_start_text(s@.subrange(start as int, s@.len() as int)),
        decreases s@.len() - start,
    {
        assert(s@.subrange(start as int, s@.len() as int).drop_first() =~= s@.subrange(
            start + 1,
            s@.len() as int,
        ));
        start += 1;
    }
    let mut end: usize = s.len();
    let ghost t = s@.subrange(start as int, s@.len() as int);
    assert(t =~= s@.subrange(start as int, end as int));
    while end > start && white_space(s[end - 1])
        invariant
            start <= end <= s@.len(),
            t == s@.subrange(start as int, s@.len() as int),
            trim_end_text(t) == trim_end_text(s@.subrange(start as int, end as int)),
        decreases end,
    {
        assert(s@.subrange(start as int, end as int).drop_last() =~= s@.subrange(
            start as int,
            end - 1,
        ));
        end -= 1;
    }
    let mut r = String::new();
    let mut i: usize = start;
    while i < end
        invariant
            start <= i <= end <= s@.len(),
            r@ == s@.subrange(start as int, i as int),
        decreases end - i,
    {
        push_char(&mut r, s[i]);
        i += 1;
        assert(r@ =~= s@.subrange(start as int, i as int));
    }
    r
}

/// `i` is the position of the first `=` in `s`.
pub open spec fn first_equals_at(s: Seq<char>, i: int) -> bool {
    &&& 0 <= i < s.len()
    &&& s[i] == '='
    &&& forall|k: int| 0 <= k < i ==> s[k] != '='
}

/// The text before and after the first `=`, as `split_once('=')` (and `splitn(2, '=')`)
/// give them.
pub open spec fn split_at_equals(s: Seq<char>) -> Option<(Seq<char>, Seq<char>)> {
    if exists|i: int| first_equals_at(s, i) {
        let i = choose|i: int| first_equals_at(s, i);
        Some((s.subrange(0, i), s.subrange(i + 1, s.len() as int)))
    } else {
        None
    }
}

fn split_equals(s: &Vec<char>) -> (r: Option<(Vec<char>, Vec<char>)>)
    ensures
        match r {
            Some((a, b)) => split_at_equals(s@) == Some((a@, b@)),
            None => split_at_equals(s@) is None,
        },
{
    let mut i: usize = 0;
    while i < s.len()
        invariant
            i <= s@.len(),
            forall|k: int| 0 <= k < i ==> s@[k] != '=',
        decreases s@.len() - i,
    {
        if s[i] == '=' {
            assert(first_equals_at(s@, i as int));
            assert forall|j: int| first_equals_at(s@, j) implies j == i by {
                if j < i {
                } else if j > i {
                    assert(s@[i as int] != '=');
                }
            }
            let mut a: Vec<char> = Vec::new();
            let mut k: usize = 0;
            while k < i
                invariant
                    k <= i < s@.len(),
                    a@ == s@.subrange(0, k as int),
                decreases i - k,
            {
                a.push(s[k]);
                k += 1;
                assert(a@ =~= s@.subrange(0, k as int));
            }
            let mut b: Vec<char> = Vec::new();
            let mut k: usize = i + 1;
            while k < s.len()
                invariant
                    i < k <= s@.len(),
                    b@ == s@.subrange(i + 1, k as int),
                decreases s@.len() - k,
            {
                b.push(s[k]);
                k += 1;
                assert(b@ =~= s@.subrange(i + 1, k as int));
            }
            return Some((a, b));
        }
        i += 1;
    }
    None
}

/// Whether a setting's value is masked: its name mentions `KEY` or `PRIVATE`.
pub open spec fn is_secret_name(name: Seq<char>) -> bool {
    contains_text(name, "KEY"@) || contains_text(name, "PRIVATE"@)
}

/// `[REDACTED]` for a masked value, the value itself otherwise.
pub open spec fn shown_value(masked: bool, value: Seq<char>) -> Seq<char> {
    if masked {
        "[REDACTED]"@
    } else {
        value
    }
}

/// The listing of an environment variable: `NAME: value`, masked for secret names.
pub open spec fn env_var_listing(name: Seq<char>, value: Seq<char>) -> Seq<char> {
    name + ": "@ + shown_value(is_secret_name(name), value)
}

/// The log line of a setting read from a `.env` file, masked for secret names.
pub open spec fn assignment_log(name: Seq<char>, value: Seq<char>) -> Seq<char> {
    "Set environment variable: "@ + name + " = "@ + shown_value(is_secret_name(name), value)
}

/// Secret values are never shown: for a name that mentions `KEY` or `PRIVATE`, the
/// listing of the variable and the log line of setting it are the same whatever its value.
pub proof fn lemma_secret_values_hidden(name: Seq<char>, v1: Seq<char>, v2: Seq<char>)
    requires
        is_secret_name(name),
    ensures
        env_var_listing(name, v1) == env_var_listing(name, v2),
        assignment_log(name, v1) == assignment_log(name, v2),
{
}

/// The listing of every variable of an environment, one line each, in order.
pub open spec fn env_listing(vars: Seq<(Seq<char>, Seq<char>)>) -> Seq<Seq<char>> {
    vars.map_values(|p: (Seq<char>, Seq<char>)| env_var_listing(p.0, p.1))
}

/// Two environments have the same variables in the same order, and differ at most in the
/// values of variables with secret names.
pub open spec fn differ_in_secret_values(
    a: Seq<(Seq<char>, Seq<char>)>,
    b: Seq<(Seq<char>, Seq<char>)>,
) -> bool {
    &&& a.len() == b.len()
    &&& forall|i: int|
        0 <= i < a.len() ==> (#[trigger] a[i]).0 == (#[trigger] b[i]).0 && (a[i].1 == b[i].1
            || is_secret_name(a[i].0))
}

/// Listing two environments that differ only in secret values gives the same text.
pub proof fn lemma_env_listing_hides_secrets(
    a: Seq<(Seq<char>, Seq<char>)>,
    b: Seq<(Seq<char>, Seq<char>)>,
)
    requires
        differ_in_secret_values(a, b),
    ensures
        env_listing(a) == env_listing(b),
{
    assert forall|i: int| 0 <= i < a.len() implies env_listing(a)[i] == env_listing(b)[i] by {
        assert(a[i].0 == b[i].0);
    }
    assert(env_listing(a) =~= env_listing(b));
}

/// The listing of every variable of an environment, in order.
pub fn env_listing_lines(vars: &Vec<(String, String)>) -> (r: Vec<String>)
    ensures
        string_views(r@) == env_listing(pair_views(vars@)),
{
    let mut r: Vec<String> = Vec::new();
    let mut i: usize = 0;
    while i < vars.len()
        invariant
            i <= vars@.len(),
            string_views(r@) == env_listing(pair_views(vars@)).subrange(0, i as int),
        decreases vars@.len() - i,
    {
        let line = env_var_display_line(vars[i].0.as_str(), vars[i].1.as_str());
        let ghost k = i as int;
        let ghost pv = pair_views(vars@);
        assert(pv[k] == (vars@[k].0@, vars@[k].1@));
        assert(env_listing(pv)[k] == env_var_listing(pv[k].0, pv[k].1));
        let ghost before = r@;
        r.push(line);
        assert(string_views(r@) =~= string_views(before).push(line@));
        i += 1;
        assert(string_views(r@) =~= env_listing(pair_views(vars@)).subrange(0, i as int));
    }
    assert(env_listing(pair_views(vars@)).subrange(0, i as int) =~= env_listing(pair_views(vars@)));
    r
}

/// How an environment variable is listed: `NAME: value`, masked for secret names.
pub fn env_var_display_line(name: &str, value: &str) -> (r: String)
    ensures
        r@ == env_var_listing(name@, value@),
{
    let masked = contains_str(name, "KEY") || contains_str(name, "PRIVATE");
    let mut r = name.to_owned();
    r.append(": ");
    if masked {
        r.append("[REDACTED]");
    } else {
        r.append(value);
    }
    r
}

/// How setting a variable read from a `.env` file is logged, masked for secret names.
pub fn assignment_log_line(name: &str, value: &str) -> (r: String)
    ensures
        r@ == assignment_log(name@, value@),
{
    let masked = contains_str(name, "KEY") || contains_str(name, "PRIVATE");
    let mut r = "Set environment variable: ".to_owned();
    r.append(name);
    r.append(" = ");
    if masked {
        r.append("[REDACTED]");
    } else {
        r.append(value);
    }
    r
}

/// How a line of a `.env` file is shown: nothing for comments, empty lines and lines
/// without `=`; otherwise two spaces, the name, `: ` and the value, masked where the name
/// mentions `KEY`.
pub open spec fn env_file_entry_display(line: Seq<char>) -> Option<Seq<char>> {
    if starts_with_text(line, "#"@) || line.len() == 0 {
        None
    } else {
        match split_at_equals(line) {
            Some((name, value)) => Some(
                "  "@ + name + ": "@ + shown_value(contains_text(name, "KEY"@), value),
            ),
            None => None,
        }
    }
}

/// How the lines of a `.env` file are shown, in order.
pub open spec fn env_file_display(lines: Seq<Seq<char>>) -> Seq<Seq<char>>
    decreases lines.len(),
{
    if lines.len() == 0 {
        Seq::empty()
    } else {
        let before = env_file_display(lines.drop_last());
        match env_file_entry_display(lines.last()) {
            Some(d) => before.push(d),
            None => before,
        }
    }
}

fn entry_display(line: &String) -> (r: Option<String>)
    ensures
        match r {
            Some(d) => env_file_entry_display(line@) == Some(d@),
            None => env_file_entry_display(line@) is None,
        },
{
    let chars = chars_of(line.as_str());
    if starts_with_str(line.as_str(), "#") || chars.len() == 0 {
        return None;
    }
    match split_equals(&chars) {
        Some((name_chars, value_chars)) => {
            let name = string_of(name_chars.as_slice());
            let value = string_of(value_chars.as_slice());
            let mut d = "  ".to_owned();
            d.append(name.as_str());
            d.append(": ");
            if contains_str(name.as_str(), "KEY") {
                d.append("[REDACTED]");
            } else {
                d.append(value.as_str());
            }
            Some(d)
        },
        None => None,
    }
}

/// The lines shown for the contents of a `.env` file.
pub fn env_file_display_lines(contents: &str) -> (r: Vec<String>)
    ensures
        string_views(r@) == env_file_display(text_lines(contents@)),
{
    let lines = split_lines(contents);
    let mut r: Vec<String> = Vec::new();
    let mut i: usize = 0;
    assert(string_views(lines@).subrange(0, 0) =~= Seq::<Seq<char>>::empty());
    while i < lines.len()
        invariant
            i <= lines@.len(),
            string_views(lines@) == text_lines(contents@),
            string_views(r@) == env_file_display(string_views(lines@).subrange(0, i as int)),
        decreases lines@.len() - i,
    {
        let ghost seen = string_views(lines@).subrange(0, i + 1);
        assert(seen.drop_last() =~= string_views(lines@).subrange(0, i as int));
        assert(seen.last() == lines@[i as int]@);
        match entry_display(&lines[i]) {
            Some(d) => {
                r.push(d);
                assert(string_views(r@) =~= env_file_display(seen));
            },
            None => {},
        }
        i += 1;
    }
    assert(string_views(lines@).subrange(0, i as int) =~= string_views(lines@));
    r
}

/// The setting a line of a `.env` file makes: the trimmed text before and after the first
/// `=`, unless the trimmed name is empty or starts with `#`.
pub open spec fn env_file_assignment(line: Seq<char>) -> Option<(Seq<char>, Seq<char>)> {
    match split_at_equals(line) {
        Some((name, value)) => {
            let n = trim_text(name);
            if starts_with_text(n, "#"@) || n.len() == 0 {
                None
            } else {
                Some((n, trim_text(value)))
            }
        },
        None => None,
    }
}

/// The settings of the lines of a `.env` file, in order.
pub open spec fn env_file_settings(lines: Seq<Seq<char>>) -> Seq<(Seq<char>, Seq<char>)>
    decreases lines.len(),
{
    if lines.len() == 0 {
        Seq::empty()
    } else {
        let before = env_file_settings(lines.drop_last());
        match env_file_assignment(lines.last()) {
            Some(p) => before.push(p),
            None => before,
        }
    }
}

/// The views of a list of name/value pairs.
pub open spec fn pair_views(v: Seq<(String, String)>) -> Seq<(Seq<char>, Seq<char>)> {
    v.map_values(|p: (String, String)| (p.0@, p.1@))
}

fn assignment(line: &String) -> (r: Option<(String, String)>)
    ensures
        match r {
            Some((n, v)) => env_file_assignment(line@) == Some((n@, v@)),
            None => env_file_assignment(line@) is None,
        },
{
    let chars = chars_of(line.as_str());
    match split_equals(&chars) {
        Some((name_chars, value_chars)) => {
            let name = trim(name_chars.as_slice());
            if starts_with_str(name.as_str(), "#") || name.as_str().is_empty() {
                return None;
            }
            let value = trim(value_chars.as_slice());
            Some((name, value))
        },
        None => None,
    }
}

/// The settings a `.env` file makes, in order.
pub fn env_file_assignments(contents: &str) -> (r: Vec<(String, String)>)
    ensures
        pair_views(r@) == env_file_settings(text_lines(contents@)),
{
    let lines = split_lines(contents);
    let mut r: Vec<(String, String)> = Vec::new();
    let mut i: usize = 0;
    assert(string_views(lines@).subrange(0, 0) =~= Seq::<Seq<char>>::empty());
    while i < lines.len()
        invariant
            i <= lines@.len(),
            string_views(lines@) == text_lines(contents@),
            pair_views(r@) == env_file_settings(string_views(lines@).subrange(0, i as int)),
        decreases lines@.len() - i,
    {
        let ghost seen = string_views(lines@).subrange(0, i + 1);
        assert(seen.drop_last() =~= string_views(lines@).subrange(0, i as int));
        assert(seen.last() == lines@[i as int]@);
        match assignment(&lines[i]) {
            Some(p) => {
                r.push(p);
                assert(pair_views(r@) =~= env_file_settings(seen));
            },
            None => {},
        }
        i += 1;
    }
    assert(string_views(lines@).subrange(0, i as int) =~= string_views(lines@));
    r
}


/// The text before the first `=` of a line (empty where there is none).
pub open spec fn setting_name(l: Seq<char>) -> Seq<char> {
    match split_at_equals(l) {
        Some((n, _)) => n,
        None => Seq::empty(),
    }
}

proof fn lemma_split_facts(l: Seq<char>)
    requires
        split_at_equals(l) is Some,
    ensures
        ({
            let (name, value) = split_at_equals(l).unwrap();
            &&& name.len() < l.len()
            &&& l[name.len() as int] == '='
            &&& name == l.subrange(0, name.len() as int)
            &&& value == l.subrange(name.len() as int + 1, l.len() as int)
        }),
{
    let i = choose|i: int| first_equals_at(l, i);
    assert(first_equals_at(l, i));
}

/// Two `.env` lines are the same, or both set the same name that mentions `KEY`.
pub open spec fn same_but_key_value(l1: Seq<char>, l2: Seq<char>) -> bool {
    ||| l1 == l2
    ||| {
        &&& split_at_equals(l1) is Some
        &&& split_at_equals(l2) is Some
        &&& setting_name(l1) == setting_name(l2)
        &&& contains_text(setting_name(l1), "KEY"@)
    }
}

proof fn lemma_entry_display_hides_keys(l1: Seq<char>, l2: Seq<char>)
    requires
        same_but_key_value(l1, l2),
    ensures
        env_file_entry_display(l1) == env_file_entry_display(l2),
{
    if l1 != l2 {
        lemma_split_facts(l1);
        lemma_split_facts(l2);
        reveal_strlit("#");
        let n = setting_name(l1);
        if n.len() > 0 {
            assert(l1[0] == n[0]);
            assert(l2[0] == n[0]);
        }
        assert("#"@.len() == 1 && "#"@[0] == '#');
        if l1[0] == '#' {
            assert(l1.subrange(0, 1) =~= "#"@);
        }
        if l2[0] == '#' {
            assert(l2.subrange(0, 1) =~= "#"@);
        }
        if starts_with_text(l1, "#"@) {
            assert(l1.subrange(0, 1)[0] == l1[0]);
        }
        if starts_with_text(l2, "#"@) {
            assert(l2.subrange(0, 1)[0] == l2[0]);
        }
    }
}

/// Showing two `.env` files whose lines differ only in the values of names that mention
/// `KEY` gives the same text.
pub proof fn lemma_env_file_display_hides_keys(lines1: Seq<Seq<char>>, lines2: Seq<Seq<char>>)
    requires
        lines1.len() == lines2.len(),
        forall|i: int| 0 <= i < lines1.len() ==> same_but_key_value(#[trigger] lines1[i], lines2[i]),
    ensures
        env_file_display(lines1) == env_file_display(lines2),
    decreases lines1.len(),
{
    if lines1.len() > 0 {
        let n = lines1.len() - 1;
        assert(same_but_key_value(lines1[n], lines2[n]));
        lemma_entry_display_hides_keys(lines1.last(), lines2.last());
        assert forall|i: int| 0 <= i < lines1.drop_last().len() implies same_but_key_value(
            #[trigger] lines1.drop_last()[i],
            lines2.drop_last()[i],
        ) by {
            assert(same_but_key_value(lines1[i], lines2[i]));
        }
        lemma_env_file_display_hides_keys(lines1.drop_last(), lines2.drop_last());
    }
}

/// The log written while loading a `.env` file: one line per setting, in order.
pub open spec fn env_load_log(lines: Seq<Seq<char>>) -> Seq<Seq<char>> {
    env_file_settings(lines).map_values(
        |p: (Seq<char>, Seq<char>)| assignment_log(p.0, p.1),
    )
}

/// Two `.env` lines are the same, or both set the same name whose trimmed form is secret.
pub open spec fn same_but_secret_value(l1: Seq<char>, l2: Seq<char>) -> bool {
    ||| l1 == l2
    ||| {
        &&& split_at_equals(l1) is Some
        &&& split_at_equals(l2) is Some
        &&& setting_name(l1) == setting_name(l2)
        &&& is_secret_name(trim_text(setting_name(l1)))
    }
}

proof fn lemma_settings_match(lines1: Seq<Seq<char>>, lines2: Seq<Seq<char>>)
    requires
        lines1.len() == lines2.len(),
        forall|i: int|
            0 <= i < lines1.len() ==> same_but_secret_value(#[trigger] lines1[i], lines2[i]),
    ensures
        env_file_settings(lines1).len() == env_file_settings(lines2).len(),
        forall|i: int|
            0 <= i < env_file_settings(lines1).len() ==> {
                &&& (#[trigger] env_file_settings(lines1)[i]).0 == env_file_settings(lines2)[i].0
                &&& assignment_log(env_file_settings(lines1)[i].0, env_file_settings(lines1)[i].1)
                    == assignment_log(
                    env_file_settings(lines2)[i].0,
                    env_file_settings(lines2)[i].1,
                )
            },
    decreases lines1.len(),
{
    if lines1.len() > 0 {
        let n = lines1.len() - 1;
        assert(same_but_secret_value(lines1[n], lines2[n]));
        assert forall|i: int| 0 <= i < lines1.drop_last().len() implies same_but_secret_value(
            #[trigger] lines1.drop_last()[i],
            lines2.drop_last()[i],
        ) by {
            assert(same_but_secret_value(lines1[i], lines2[i]));
        }
        lemma_settings_match(lines1.drop_last(), lines2.drop_last());
    }
}

/// Loading two `.env` files whose lines differ only in the values of secret names writes
/// the same log.
pub proof fn lemma_env_load_log_hides_secrets(lines1: Seq<Seq<char>>, lines2: Seq<Seq<char>>)
    requires
        lines1.len() == lines2.len(),
        forall|i: int|
            0 <= i < lines1.len() ==> same_but_secret_value(#[trigger] lines1[i], lines2[i]),
    ensures
        env_load_log(lines1) == env_load_log(lines2),
{
    lemma_settings_match(lines1, lines2);
    assert(env_load_log(lines1) =~= env_load_log(lines2));
}

} // verus!
