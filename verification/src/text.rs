use vstd::prelude::*;

verus! {

/// Appends one character to a string (std `String::push`).
/// Trusted: the new contents are the old ones followed by `c`, as std documents.
#[verifier::external_body]
pub(crate) fn push_char(s: &mut String, c: char)
    ensures
        final(s)@ == old(s)@.push(c),
{
    s.push(c);
}

/// The decimal digits of a natural number, most significant first.
pub open spec fn decimal(n: nat) -> Seq<char>
    decreases n,
{
    if n < 10 {
        seq![digit_char(n)]
    } else {
        decimal(n / 10).push(digit_char(n % 10))
    }
}

pub open spec fn digit_char(d: nat) -> char {
    if d == 0 { '0' } else if d == 1 { '1' } else if d == 2 { '2' } else if d == 3 { '3' }
    else if d == 4 { '4' } else if d == 5 { '5' } else if d == 6 { '6' } else if d == 7 { '7' }
    else if d == 8 { '8' } else { '9' }
}

fn digit(d: u128) -> (c: char)
    requires
        d < 10,
    ensures
        c == digit_char(d as nat),
{
    if d == 0 { '0' } else if d == 1 { '1' } else if d == 2 { '2' } else if d == 3 { '3' }
    else if d == 4 { '4' } else if d == 5 { '5' } else if d == 6 { '6' } else if d == 7 { '7' }
    else if d == 8 { '8' } else { '9' }
}

/// Writes `n` in decimal, as `n.to_string()` does.
pub fn decimal_text(n: u128) -> (res: String)
    ensures
        res@ == decimal(n as nat),
    decreases n,
{
    if n < 10 {
        let mut s = String::new();
        push_char(&mut s, digit(n));
        assert(s@ =~= seq![digit_char(n as nat)]);
        s
    } else {
        let mut s = decimal_text(n / 10);
        push_char(&mut s, digit(n % 10));
        s
    }
}

/// Whether two texts are equal, character by character.
pub fn text_eq(a: &str, b: &str) -> (res: bool)
    ensures
        res == (a@ == b@),
{
    let la = a.unicode_len();
    let lb = b.unicode_len();
    if la != lb {
        return false;
    }
    let mut i: usize = 0;
    while i < la
        invariant
            la == a@.len(),
            lb == b@.len(),
            la == lb,
            0 <= i <= la,
            a@.take(i as int) =~= b@.take(i as int),
        decreases la - i,
    {
        let ca = a.get_char(i);
        let cb = b.get_char(i);
        if ca != cb {
            assert(a@[i as int] != b@[i as int]);
            return false;
        }
        assert(a@.take(i + 1) =~= a@.take(i as int).push(ca));
        assert(b@.take(i + 1) =~= b@.take(i as int).push(cb));
        i = i + 1;
    }
    assert(a@.take(la as int) =~= a@);
    assert(b@.take(lb as int) =~= b@);
    true
}

/// Concatenation of two texts.
pub fn concat(a: &str, b: &str) -> (res: String)
    ensures
        res@ == a@ + b@,
{
    let mut s = a.to_owned();
    s.append(b);
    s
}

/// Concatenation of three texts.
pub fn concat3(a: &str, b: &str, c: &str) -> (res: String)
    ensures
        res@ == a@ + b@ + c@,
{
    let mut s = a.to_owned();
    s.append(b);
    s.append(c);
    s
}

/// Whether `a` comes strictly before `b` in the order of `str`: character by character,
/// a proper prefix first.
pub open spec fn text_before(a: Seq<char>, b: Seq<char>) -> bool
    decreases a.len(),
{
    if b.len() == 0 {
        false
    } else if a.len() == 0 {
        true
    } else if a[0] != b[0] {
        (a[0] as u32) < (b[0] as u32)
    } else {
        text_before(a.drop_first(), b.drop_first())
    }
}

proof fn lemma_text_before_skip(a: Seq<char>, b: Seq<char>, i: int)
    requires
        0 <= i <= a.len(),
        i <= b.len(),
        a.take(i) =~= b.take(i),
    ensures
        text_before(a, b) == text_before(a.skip(i), b.skip(i)),
    decreases i,
{
    if i > 0 {
        assert(a.drop_first().take(i - 1) =~= b.drop_first().take(i - 1)) by {
            assert forall|k: int| 0 <= k < i - 1 implies a.drop_first()[k] == b.drop_first()[k] by {
                assert(a.take(i)[k + 1] == b.take(i)[k + 1]);
            }
        }
        assert(a.take(i)[0] == b.take(i)[0]);
        lemma_text_before_skip(a.drop_first(), b.drop_first(), i - 1);
        assert(a.drop_first().skip(i - 1) =~= a.skip(i));
        assert(b.drop_first().skip(i - 1) =~= b.skip(i));
    } else {
        assert(a.skip(0) =~= a);
        assert(b.skip(0) =~= b);
    }
}

/// Compares two texts as `<` on `String` does (code point order, a prefix first).
pub fn is_text_before(a: &str, b: &str) -> (res: bool)
    ensures
        res == text_before(a@, b@),
{
    let la = a.unicode_len();
    let lb = b.unicode_len();
    let mut i: usize = 0;
    proof {
        lemma_text_before_skip(a@, b@, 0);
    }
    while i < la && i < lb
        invariant
            la == a@.len(),
            lb == b@.len(),
            0 <= i <= la,
            i <= lb,
            a@.take(i as int) =~= b@.take(i as int),
        decreases la - i,
    {
        let ca = a.get_char(i);
        let cb = b.get_char(i);
        if ca != cb {
            proof {
                lemma_text_before_skip(a@, b@, i as int);
                assert(a@.skip(i as int)[0] == ca);
                assert(b@.skip(i as int)[0] == cb);
            }
            return (ca as u32) < (cb as u32);
        }
        assert(a@.take(i + 1) =~= a@.take(i as int).push(ca));
        assert(b@.take(i + 1) =~= b@.take(i as int).push(cb));
        i = i + 1;
    }
    proof {
        lemma_text_before_skip(a@, b@, i as int);
    }
    i < lb
}

/// The characters that separate parts of a path on the platforms the service knows.
pub open spec fn is_path_separator(c: char) -> bool {
    c == '/' || c == '\\' || c == ':'
}

/// `s` with every path separator replaced by `_`.
pub open spec fn flatten_separators(s: Seq<char>) -> Seq<char> {
    s.map_values(|c: char| if is_path_separator(c) { '_' } else { c })
}

/// Replaces `/`, `\` and `:` by `_`, as `str::replace(['/', '\\', ':'], "_")` does.
pub fn replace_separators(s: &str) -> (res: String)
    ensures
        res@ == flatten_separators(s@),
{
    let n = s.unicode_len();
    let mut out = String::new();
    let mut i: usize = 0;
    while i < n
        invariant
            n == s@.len(),
            0 <= i <= n,
            out@ =~= flatten_separators(s@.take(i as int)),
        decreases n - i,
    {
        let c = s.get_char(i);
        if c == '/' || c == '\\' || c == ':' {
            push_char(&mut out, '_');
        } else {
            push_char(&mut out, c);
        }
        assert(s@.take(i + 1) =~= s@.take(i as int).push(c));
        i = i + 1;
    }
    assert(s@.take(n as int) =~= s@);
    out
}

/// A path with one more relative component: `PathBuf::join` for a name that does not start
/// with `/`. A separator goes between the two unless `dir` is empty or already ends in one.
pub open spec fn joined_path(dir: Seq<char>, name: Seq<char>) -> Seq<char> {
    if dir.len() == 0 || dir.last() == '/' {
        dir + name
    } else {
        dir + seq!['/'] + name
    }
}

/// Joins a relative component onto a directory path.
pub fn join_path(dir: &str, name: &str) -> (res: String)
    requires
        name@.len() == 0 || name@[0] != '/',
    ensures
        res@ == joined_path(dir@, name@),
{
    let n = dir.unicode_len();
    let mut out = dir.to_owned();
    if n != 0 && dir.get_char(n - 1) != '/' {
        push_char(&mut out, '/');
    }
    out.append(name);
    proof {
        if !(n == 0 || dir@.last() == '/') {
            assert(out@ =~= dir@ + seq!['/'] + name@);
        }
    }
    out
}

/// What std's `Path::file_name` gives for a path, as text; nothing where it gives none or
/// where the name is not valid Unicode.
pub uninterp spec fn path_file_name(path: Seq<char>) -> Option<Seq<char>>;

/// The position of the last `.` in a name, or -1 where it has none.
pub open spec fn last_dot(name: Seq<char>) -> int
    decreases name.len(),
{
    if name.len() == 0 {
        -1
    } else if name.last() == '.' {
        name.len() - 1
    } else {
        last_dot(name.drop_last())
    }
}

/// The stem of a file name as std splits it: the part before the last `.`; the whole name
/// where it has no `.`, where its only `.` leads it, or where it is `..`.
pub open spec fn name_stem(name: Seq<char>) -> Seq<char> {
    if name == seq!['.', '.'] || last_dot(name) <= 0 { name } else { name.take(last_dot(name)) }
}

/// The extension of a file name as std splits it: the part after the last `.`, where that
/// `.` does not lead the name and the name is not `..`.
pub open spec fn name_extension(name: Seq<char>) -> Option<Seq<char>> {
    if name == seq!['.', '.'] || last_dot(name) <= 0 { None } else { Some(name.skip(last_dot(name) + 1)) }
}

/// What std's `Path::file_stem` gives for a path: the stem of its file name.
pub open spec fn path_file_stem(path: Seq<char>) -> Option<Seq<char>> {
    match path_file_name(path) {
        Some(n) => Some(name_stem(n)),
        None => None,
    }
}

/// What std's `Path::extension` gives for a path: the extension of its file name.
pub open spec fn path_extension(path: Seq<char>) -> Option<Seq<char>> {
    match path_file_name(path) {
        Some(n) => name_extension(n),
        None => None,
    }
}

/// The last component of a path (std `Path::file_name`, then `OsStr::to_str`).
/// Trusted: the result is the one std computes from `path` alone.
#[verifier::external_body]
pub(crate) fn file_name(path: &str) -> (res: Option<String>)
    ensures
        res matches Some(n) ==> path_file_name(path@) == Some(n@),
        res is None ==> path_file_name(path@) is None,
{
    std::path::Path::new(path).file_name().and_then(|n| n.to_str()).map(|n| n.to_string())
}

fn last_dot_of(name: &str) -> (res: Option<usize>)
    ensures
        match res {
            Some(k) => k < name@.len() && last_dot(name@) == k,
            None => last_dot(name@) == -1,
        },
{
    let n = name.unicode_len();
    let mut found: Option<usize> = None;
    let mut i: usize = 0;
    proof {
        assert(name@.take(0).len() == 0);
    }
    while i < n
        invariant
            n == name@.len(),
            0 <= i <= n,
            match found {
                Some(k) => k < i && last_dot(name@.take(i as int)) == k,
                None => last_dot(name@.take(i as int)) == -1,
            },
        decreases n - i,
    {
        proof {
            assert(name@.take(i + 1).drop_last() =~= name@.take(i as int));
            assert(name@.take(i + 1).last() == name@[i as int]);
        }
        if name.get_char(i) == '.' {
            found = Some(i);
        }
        i = i + 1;
    }
    proof {
        assert(name@.take(n as int) =~= name@);
    }
    found
}

fn chars_between(s: &str, from: usize, to: usize) -> (res: String)
    requires
        from <= to <= s@.len(),
    ensures
        res@ == s@.subrange(from as int, to as int),
{
    let mut out = String::new();
    let mut k: usize = from;
    while k < to
        invariant
            from <= k <= to <= s@.len(),
            out@ == s@.subrange(from as int, k as int),
        decreases to - k,
    {
        push_char(&mut out, s.get_char(k));
        proof {
            assert(out@ =~= s@.subrange(from as int, k + 1));
        }
        k = k + 1;
    }
    out
}

fn is_dot_dot(name: &str) -> (res: bool)
    ensures
        res == (name@ == seq!['.', '.']),
{
    if name.unicode_len() == 2 && name.get_char(0) == '.' && name.get_char(1) == '.' {
        assert(name@ =~= seq!['.', '.']);
        true
    } else {
        false
    }
}

/// The last component of a path without its extension (std `Path::file_stem`).
pub fn file_stem(path: &str) -> (res: Option<String>)
    ensures
        res matches Some(n) ==> path_file_stem(path@) == Some(n@),
        res is None ==> path_file_stem(path@) is None,
{
    match file_name(path) {
        None => None,
        Some(name) => {
            if is_dot_dot(name.as_str()) {
                return Some(name);
            }
            match last_dot_of(name.as_str()) {
                Some(k) => {
                    if k == 0 {
                        Some(name)
                    } else {
                        let stem = chars_between(name.as_str(), 0, k);
                        assert(stem@ =~= name@.take(k as int));
                        Some(stem)
                    }
                },
                None => Some(name),
            }
        },
    }
}

/// The extension of a path's last component (std `Path::extension`).
pub fn extension(path: &str) -> (res: Option<String>)
    ensures
        res matches Some(n) ==> path_extension(path@) == Some(n@),
        res is None ==> path_extension(path@) is None,
{
    match file_name(path) {
        None => None,
        Some(name) => {
            if is_dot_dot(name.as_str()) {
                return None;
            }
            match last_dot_of(name.as_str()) {
                Some(k) => {
                    if k == 0 {
                        None
                    } else {
                        let n = name.unicode_len();
                        let ext = chars_between(name.as_str(), k + 1, n);
                        assert(ext@ =~= name@.skip(k + 1));
                        Some(ext)
                    }
                },
                None => None,
            }
        },
    }
}

} // verus!
