use vstd::prelude::*;

verus! {

/// The characters that Unicode calls white space.
pub open spec fn is_space(c: char) -> bool {
    c == ' ' || c == '\t' || c == '\n' || c == '\u{B}' || c == '\u{C}' || c == '\r'
        || c == '\u{85}' || c == '\u{A0}' || c == '\u{1680}'
        || ('\u{2000}' <= c && c <= '\u{200A}') || c == '\u{2028}' || c == '\u{2029}'
        || c == '\u{202F}' || c == '\u{205F}' || c == '\u{3000}'
}

/// Whether `c` is white space.
pub fn is_space_char(c: char) -> (r: bool)
    ensures
        r == is_space(c),
{
    c == ' ' || c == '\t' || c == '\n' || c == '\u{B}' || c == '\u{C}' || c == '\r'
        || c == '\u{85}' || c == '\u{A0}' || c == '\u{1680}'
        || ('\u{2000}' <= c && c <= '\u{200A}') || c == '\u{2028}' || c == '\u{2029}'
        || c == '\u{202F}' || c == '\u{205F}' || c == '\u{3000}'
}

/// Whether some character of `s` is white space.
pub fn contains_space(s: &str) -> (r: bool)
    ensures
        r == exists|i: int| 0 <= i < s@.len() && is_space(#[trigger] s@[i]),
{
    let n = s.unicode_len();
    let mut i: usize = 0;
    while i < n
        invariant
            n == s@.len(),
            i <= n,
            forall|k: int| 0 <= k < i ==> !is_space(#[trigger] s@[k]),
        decreases n - i,
    {
        if is_space_char(s.get_char(i)) {
            return true;
        }
        i = i + 1;
    }
    false
}


/// The placeholder text `${name}`.
pub open spec fn placeholder(name: Seq<char>) -> Seq<char> {
    seq!['$', '{'] + name + seq!['}']
}

/// Whether the placeholder for `name` begins at position `i` of `s`.
pub open spec fn placeholder_at(s: Seq<char>, i: int, name: Seq<char>) -> bool {
    0 <= i && i + placeholder(name).len() <= s.len() && s.subrange(
        i,
        i + placeholder(name).len(),
    ) == placeholder(name)
}

/// The first binding, counting from `j`, whose placeholder begins at `i`;
/// `names.len()` when there is none.
pub open spec fn first_binding(s: Seq<char>, i: int, names: Seq<Seq<char>>, j: int) -> int
    decreases names.len() - j,
{
    if j >= names.len() {
        names.len() as int
    } else if placeholder_at(s, i, names[j]) {
        j
    } else {
        first_binding(s, i, names, j + 1)
    }
}

/// `s` from position `i` on, with every placeholder of a bound name replaced
/// by its value in one left-to-right pass: text that a value brings in is
/// never scanned again.
pub open spec fn expand_from(
    s: Seq<char>,
    i: int,
    names: Seq<Seq<char>>,
    values: Seq<Seq<char>>,
) -> Seq<char>
    decreases s.len() - i,
{
    if i < 0 || i >= s.len() {
        Seq::empty()
    } else {
        let j = first_binding(s, i, names, 0);
        if 0 <= j < names.len() && j < values.len() && i + 3 + names[j].len() <= s.len() {
            values[j] + expand_from(s, i + 3 + names[j].len(), names, values)
        } else {
            seq![s[i]] + expand_from(s, i + 1, names, values)
        }
    }
}

/// The whole of `s` with its placeholders expanded.
pub open spec fn expand_spec(s: Seq<char>, names: Seq<Seq<char>>, values: Seq<Seq<char>>) -> Seq<
    char,
> {
    expand_from(s, 0, names, values)
}

/// The views of a sequence of strings.
pub open spec fn views(v: Seq<String>) -> Seq<Seq<char>> {
    v.map_values(|x: String| x@)
}

proof fn lemma_first_binding_range(s: Seq<char>, i: int, names: Seq<Seq<char>>, j: int)
    requires
        0 <= j <= names.len(),
    ensures
        j <= first_binding(s, i, names, j) <= names.len(),
        first_binding(s, i, names, j) < names.len() ==> placeholder_at(
            s,
            i,
            names[first_binding(s, i, names, j)],
        ),
        (exists|k: int| j <= k < names.len() && placeholder_at(s, i, #[trigger] names[k]))
            ==> first_binding(s, i, names, j) < names.len(),
    decreases names.len() - j,
{
    if j < names.len() && !placeholder_at(s, i, names[j]) {
        lemma_first_binding_range(s, i, names, j + 1);
        assert forall|k: int| j <= k < names.len() && placeholder_at(s, i, #[trigger] names[k])
            implies j + 1 <= k by {}
    }
}

/// Whether the placeholder for `name` begins at position `i` of `s`.
pub fn has_placeholder_at(s: &str, n: usize, i: usize, name: &str) -> (r: bool)
    requires
        n == s@.len(),
    ensures
        r == placeholder_at(s@, i as int, name@),
{
    let m = name.unicode_len();
    if i > n || n - i < m || n - i - m < 3 {
        return false;
    }
    let ghost t = placeholder(name@);
    assert(t.len() == m + 3);
    if s.get_char(i) != '$' {
        assert(s@.subrange(i as int, i + t.len())[0] != t[0]);
        return false;
    }
    if s.get_char(i + 1) != '{' {
        assert(s@.subrange(i as int, i + t.len())[1] != t[1]);
        return false;
    }
    let mut k: usize = 0;
    while k < m
        invariant
            m == name@.len(),
            t == placeholder(name@),
            i + m + 3 <= n,
            n == s@.len(),
            k <= m,
            s@[i as int] == '$',
            s@[i + 1] == '{',
            forall|q: int| 0 <= q < k ==> s@[i + 2 + q] == name@[q],
        decreases m - k,
    {
        if s.get_char(i + 2 + k) != name.get_char(k) {
            assert(s@.subrange(i as int, i + t.len())[2 + k] != t[2 + k]);
            return false;
        }
        k = k + 1;
    }
    if s.get_char(i + 2 + m) != '}' {
        assert(s@.subrange(i as int, i + t.len())[2 + m] != t[2 + m]);
        return false;
    }
    assert(s@.subrange(i as int, i + t.len()) =~= t);
    true
}

/// `s` with every placeholder `${names[j]}` replaced by `values[j]`, in one
/// left-to-right pass; where two names match at one place, the first wins.
/// Placeholders of other names are kept as they are.
pub fn expand(s: &str, names: &Vec<String>, values: &Vec<String>) -> (r: String)
    requires
        names.len() == values.len(),
    ensures
        r@ == expand_spec(s@, views(names@), views(values@)),
{
    let ghost nv = views(names@);
    let ghost vv = views(values@);
    let n = s.unicode_len();
    let mut out = String::new();
    let mut i: usize = 0;
    while i < n
        invariant
            n == s@.len(),
            i <= n,
            names.len() == values.len(),
            nv == views(names@),
            vv == views(values@),
            out@ + expand_from(s@, i as int, nv, vv) == expand_spec(s@, nv, vv),
        decreases n - i,
    {
        let mut j: usize = 0;
        while j < names.len()
            invariant
                n == s@.len(),
                i < n,
                j <= names.len(),
                nv == views(names@),
                first_binding(s@, i as int, nv, 0) == first_binding(s@, i as int, nv, j as int),
            ensures
                j <= names.len(),
                first_binding(s@, i as int, nv, 0) == first_binding(s@, i as int, nv, j as int),
                j < names.len() ==> placeholder_at(s@, i as int, nv[j as int]),
            decreases names.len() - j,
        {
            assert(nv[j as int] == names@[j as int]@);
            if has_placeholder_at(s, n, i, names[j].as_str()) {
                break;
            }
            j = j + 1;
        }
        proof {
            lemma_first_binding_range(s@, i as int, nv, 0);
        }
        let ghost old_out = out@;
        if j < names.len() {
            assert(nv[j as int] == names@[j as int]@);
            assert(vv[j as int] == values@[j as int]@);
            assert(first_binding(s@, i as int, nv, j as int) == j);
            let m = names[j].unicode_len();
            out.append(values[j].as_str());
            assert(old_out + expand_from(s@, i as int, nv, vv) =~= out@ + expand_from(
                s@,
                i + 3 + m,
                nv,
                vv,
            ));
            i = i + 3 + m;
        } else {
            out.append(s.substring_char(i, i + 1));
            assert(old_out + expand_from(s@, i as int, nv, vv) =~= out@ + expand_from(
                s@,
                i + 1,
                nv,
                vv,
            ));
            i = i + 1;
        }
    }
    assert(out@ =~= out@ + expand_from(s@, i as int, nv, vv));
    out
}


/// Whether no character of `s` is `c`.
pub open spec fn lacks(s: Seq<char>, c: char) -> bool {
    forall|k: int| 0 <= k < s.len() ==> s[k] != c
}

/// Whether every `$` of `s` begins the placeholder of one of `names`.
pub open spec fn dollars_begin_placeholders(s: Seq<char>, names: Seq<Seq<char>>) -> bool {
    forall|k: int|
        0 <= k < s.len() && s[k] == '$' ==> exists|j: int|
            0 <= j < names.len() && placeholder_at(s, k, #[trigger] names[j])
}

proof fn lemma_expand_from_lacks_dollar(
    s: Seq<char>,
    i: int,
    names: Seq<Seq<char>>,
    values: Seq<Seq<char>>,
)
    requires
        names.len() == values.len(),
        dollars_begin_placeholders(s, names),
        forall|j: int| 0 <= j < values.len() ==> lacks(#[trigger] values[j], '$'),
    ensures
        lacks(expand_from(s, i, names, values), '$'),
    decreases s.len() - i,
{
    if 0 <= i < s.len() {
        lemma_first_binding_range(s, i, names, 0);
        let j = first_binding(s, i, names, 0);
        if 0 <= j < names.len() {
            assert(s.subrange(i, i + placeholder(names[j]).len()) == placeholder(names[j]));
            lemma_expand_from_lacks_dollar(s, i + 3 + names[j].len(), names, values);
            let r = expand_from(s, i + 3 + names[j].len(), names, values);
            assert(lacks(values[j], '$'));
            assert(forall|k: int| 0 <= k < values[j].len() + r.len() ==>
                #[trigger] (values[j] + r)[k] != '$');
        } else {
            lemma_expand_from_lacks_dollar(s, i + 1, names, values);
            let r = expand_from(s, i + 1, names, values);
            assert(forall|k: int| 0 <= k < 1 + r.len() ==> #[trigger] (seq![s[i]] + r)[k] != '$');
        }
    }
}

/// When every `$` of a template begins the placeholder of a bound name and
/// no value holds a `$`, the expanded text holds no `$`, and so no
/// placeholder of any bound name is left in it.
pub proof fn lemma_expansion_leaves_no_placeholder(
    s: Seq<char>,
    names: Seq<Seq<char>>,
    values: Seq<Seq<char>>,
)
    requires
        names.len() == values.len(),
        dollars_begin_placeholders(s, names),
        forall|j: int| 0 <= j < values.len() ==> lacks(#[trigger] values[j], '$'),
    ensures
        lacks(expand_spec(s, names, values), '$'),
        forall|k: int, j: int|
            0 <= j < names.len() ==> !#[trigger] placeholder_at(
                expand_spec(s, names, values),
                k,
                names[j],
            ),
{
    lemma_expand_from_lacks_dollar(s, 0, names, values);
    let r = expand_spec(s, names, values);
    assert forall|k: int, j: int| 0 <= j < names.len() implies !#[trigger] placeholder_at(
        r,
        k,
        names[j],
    ) by {
        if placeholder_at(r, k, names[j]) {
            assert(r.subrange(k, k + placeholder(names[j]).len())[0] == '$');
        }
    }
}

/// Replaces, in `string`, every placeholder `${var}` by `value`.
pub fn replace_var(string: &mut String, var: &str, value: &str)
    ensures
        final(string)@ == expand_spec(old(string)@, seq![var@], seq![value@]),
{
    let names = vec![var.to_owned()];
    let values = vec![value.to_owned()];
    let r = expand(string.as_str(), &names, &values);
    assert(views(names@) =~= seq![var@]);
    assert(views(values@) =~= seq![value@]);
    *string = r;
}

/// The whitespace-separated words of `s`, in order.
pub open spec fn words(s: Seq<char>) -> Seq<Seq<char>>
    decreases s.len(),
{
    if s.len() == 0 {
        Seq::empty()
    } else {
        let w = words(s.drop_last());
        let c = s.last();
        if is_space(c) {
            w
        } else if s.len() == 1 || is_space(s[s.len() - 2]) {
            w.push(seq![c])
        } else {
            w.update(w.len() - 1, w.last().push(c))
        }
    }
}

/// Splits `s` into its whitespace-separated words.
pub fn split_words(s: &str) -> (r: Vec<String>)
    ensures
        views(r@) == words(s@),
{
    let n = s.unicode_len();
    let mut pieces: Vec<String> = Vec::new();
    let mut cur = String::new();
    let mut in_word = false;
    let mut i: usize = 0;
    while i < n
        invariant
            n == s@.len(),
            i <= n,
            in_word == (i > 0 && !is_space(s@[i - 1])),
            in_word ==> words(s@.take(i as int)) == views(pieces@).push(cur@),
            !in_word ==> words(s@.take(i as int)) == views(pieces@),
        decreases n - i,
    {
        let c = s.get_char(i);
        let ghost w = words(s@.take(i as int));
        assert(s@.take(i + 1).drop_last() =~= s@.take(i as int));
        if is_space_char(c) {
            if in_word {
                pieces.push(cur);
                cur = String::new();
                assert(views(pieces@) =~= w);
            }
            in_word = false;
        } else {
            let piece = s.substring_char(i, i + 1);
            assert(piece@ =~= seq![c]);
            assert(s@.take(i + 1).last() == c);
            if in_word {
                let ghost old_cur = cur@;
                assert(s@.take(i + 1)[i - 1] == s@[i - 1]);
                cur.append(piece);
                assert(cur@ =~= old_cur.push(c));
                assert(words(s@.take(i + 1)) =~= views(pieces@).push(cur@));
            } else {
                cur = String::new();
                cur.append(piece);
                assert(cur@ =~= seq![c]);
                assert(words(s@.take(i + 1)) =~= views(pieces@).push(cur@));
            }
            in_word = true;
        }
        i = i + 1;
    }
    if in_word {
        pieces.push(cur);
    }
    assert(s@.take(n as int) =~= s@);
    assert(views(pieces@) =~= words(s@));
    pieces
}


/// Whether `a` and `b` hold the same characters.
pub fn same_text(a: &str, b: &str) -> (r: bool)
    ensures
        r == (a@ == b@),
{
    let n = a.unicode_len();
    if n != b.unicode_len() {
        return false;
    }
    let mut i: usize = 0;
    while i < n
        invariant
            n == a@.len(),
            n == b@.len(),
            i <= n,
            forall|k: int| 0 <= k < i ==> a@[k] == b@[k],
        decreases n - i,
    {
        if a.get_char(i) != b.get_char(i) {
            return false;
        }
        i = i + 1;
    }
    assert(a@ =~= b@);
    true
}


/// The fields of `s` between the occurrences of `c`, empty ones included.
pub open spec fn fields(s: Seq<char>, c: char) -> Seq<Seq<char>>
    decreases s.len(),
{
    if s.len() == 0 {
        seq![Seq::empty()]
    } else {
        let f = fields(s.drop_last(), c);
        if s.last() == c {
            f.push(Seq::empty())
        } else {
            f.update(f.len() - 1, f.last().push(s.last()))
        }
    }
}

/// Splits `s` at every `c`.
pub fn split_fields(s: &str, c: char) -> (r: Vec<String>)
    ensures
        views(r@) == fields(s@, c),
{
    let n = s.unicode_len();
    let mut done: Vec<String> = Vec::new();
    let mut cur = String::new();
    let mut i: usize = 0;
    while i < n
        invariant
            n == s@.len(),
            i <= n,
            fields(s@.take(i as int), c) == views(done@).push(cur@),
        decreases n - i,
    {
        let ch = s.get_char(i);
        assert(s@.take(i + 1).drop_last() =~= s@.take(i as int));
        assert(s@.take(i + 1).last() == ch);
        if ch == c {
            done.push(cur);
            cur = String::new();
            assert(fields(s@.take(i + 1), c) =~= views(done@).push(cur@));
        } else {
            let ghost old_cur = cur@;
            let piece = s.substring_char(i, i + 1);
            assert(piece@ =~= seq![ch]);
            cur.append(piece);
            assert(cur@ =~= old_cur.push(ch));
            assert(fields(s@.take(i + 1), c) =~= views(done@).push(cur@));
        }
        i = i + 1;
    }
    assert(s@.take(n as int) =~= s@);
    done.push(cur);
    assert(views(done@) =~= fields(s@, c));
    done
}

/// `s` with every `.` turned into `/`.
pub open spec fn dots_to_slashes(s: Seq<char>) -> Seq<char> {
    s.map_values(|x: char| if x == '.' { '/' } else { x })
}

/// The relative path of the artifact that a Maven coordinate
/// `group:artifact:version` names; `None` when it has under three fields.
pub open spec fn maven_path_spec(name: Seq<char>) -> Option<Seq<char>> {
    let p = fields(name, ':');
    if p.len() < 3 {
        None
    } else {
        Some(
            dots_to_slashes(p[0]) + "/"@ + p[1] + "/"@ + p[2] + "/"@ + p[1] + "-"@ + p[2]
                + ".jar"@,
        )
    }
}

/// The relative artifact path of the Maven coordinate `name`.
pub fn maven_path(name: &str) -> (r: Option<String>)
    ensures
        r is Some <==> maven_path_spec(name@) is Some,
        r is Some ==> r->Some_0@ == maven_path_spec(name@)->Some_0,
{
    let p = split_fields(name, ':');
    if p.len() < 3 {
        return None;
    }
    assert(p@[0]@ == fields(name@, ':')[0]);
    assert(p@[1]@ == fields(name@, ':')[1]);
    assert(p@[2]@ == fields(name@, ':')[2]);
    let g = p[0].as_str();
    let n = g.unicode_len();
    let mut out = String::new();
    let mut i: usize = 0;
    while i < n
        invariant
            n == g@.len(),
            i <= n,
            out@ == dots_to_slashes(g@.take(i as int)),
        decreases n - i,
    {
        let ghost before = out@;
        if g.get_char(i) == '.' {
            out.append("/");
            proof {
                reveal_strlit("/");
            }
        } else {
            out.append(g.substring_char(i, i + 1));
        }
        assert(out@ =~= dots_to_slashes(g@.take(i + 1)));
        i = i + 1;
    }
    assert(g@.take(n as int) =~= g@);
    out.append("/");
    out.append(p[1].as_str());
    out.append("/");
    out.append(p[2].as_str());
    out.append("/");
    out.append(p[1].as_str());
    out.append("-");
    out.append(p[2].as_str());
    out.append(".jar");
    Some(out)
}

} // verus!
