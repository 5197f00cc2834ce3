use vstd::prelude::*;

verus! {

broadcast use vstd::string::group_string_axioms;

/// Appends one character to a `String` (calls `String::push`).
/// Trusted: the new contents are the old ones followed by `c`, as std documents.
#[verifier::external_body]
pub(crate) fn empurrar_char(s: &mut String, c: char)
    ensures
        final(s)@ == old(s)@.push(c),
{
    s.push(c);
}

/// The characters of a string slice, in order.
pub fn chars_de(s: &str) -> (v: Vec<char>)
    ensures
        v@ == s@,
{
    let mut v: Vec<char> = Vec::new();
    for c in it: s.chars()
        invariant
            it.seq() == s@,
            v@ == it.seq().take(it.index() as int),
    {
        v.push(c);
    }
    v
}


/// Unicode `White_Space`, the property that `char::is_whitespace` and
/// `str::trim` go by.
pub open spec fn eh_espaco(c: char) -> bool {
    let u = c as u32;
    ||| 9 <= u <= 13
    ||| u == 32
    ||| u == 0x85
    ||| u == 0xA0
    ||| u == 0x1680
    ||| 0x2000 <= u <= 0x200A
    ||| u == 0x2028
    ||| u == 0x2029
    ||| u == 0x202F
    ||| u == 0x205F
    ||| u == 0x3000
}

/// `s` without its leading whitespace (`str::trim_start`).
pub open spec fn aparar_inicio(s: Seq<char>) -> Seq<char>
    decreases s.len(),
{
    if s.len() == 0 {
        s
    } else if eh_espaco(s[0]) {
        aparar_inicio(s.drop_first())
    } else {
        s
    }
}

/// `s` without its trailing whitespace (`str::trim_end`).
pub open spec fn aparar_fim(s: Seq<char>) -> Seq<char>
    decreases s.len(),
{
    if s.len() == 0 {
        s
    } else if eh_espaco(s.last()) {
        aparar_fim(s.drop_last())
    } else {
        s
    }
}

/// `s` without leading and trailing whitespace (`str::trim`).
pub open spec fn aparar(s: Seq<char>) -> Seq<char> {
    aparar_fim(aparar_inicio(s))
}

/// `s` starts with `p`.
pub open spec fn comeca_com(s: Seq<char>, p: Seq<char>) -> bool {
    p.len() <= s.len() && s.take(p.len() as int) == p
}

/// `s` ends with `p`.
pub open spec fn termina_com(s: Seq<char>, p: Seq<char>) -> bool {
    p.len() <= s.len() && s.skip(s.len() - p.len()) == p
}

/// `p` occurs in `s` at position `i`.
pub open spec fn ocorre_em(s: Seq<char>, p: Seq<char>, i: int) -> bool {
    0 <= i && i + p.len() <= s.len() && s.subrange(i, i + p.len()) == p
}

/// The first position at or after `i` where `p` occurs in `s`.
pub open spec fn achar_desde(s: Seq<char>, p: Seq<char>, i: int) -> Option<int>
    decreases s.len() + 1 - i,
{
    if i < 0 || i + p.len() > s.len() {
        None
    } else if s.subrange(i, i + p.len()) == p {
        Some(i)
    } else {
        achar_desde(s, p, i + 1)
    }
}

/// The first position where `p` occurs in `s`.
pub open spec fn achar(s: Seq<char>, p: Seq<char>) -> Option<int> {
    achar_desde(s, p, 0)
}

/// `str::split_once`: the parts before and after the first occurrence of `p`.
pub open spec fn dividir_em(s: Seq<char>, p: Seq<char>) -> Option<(Seq<char>, Seq<char>)> {
    match achar(s, p) {
        Some(i) => Some((s.take(i), s.skip(i + p.len()))),
        None => None,
    }
}

/// `str::strip_prefix`.
pub open spec fn sem_prefixo(s: Seq<char>, p: Seq<char>) -> Option<Seq<char>> {
    if comeca_com(s, p) {
        Some(s.skip(p.len() as int))
    } else {
        None
    }
}

/// What `achar_desde` finds is an occurrence, and there is none before it.
pub proof fn lema_achar_desde(s: Seq<char>, p: Seq<char>, i: int)
    requires
        0 <= i,
    ensures
        match achar_desde(s, p, i) {
            Some(k) => i <= k && ocorre_em(s, p, k) && forall|j: int| i <= j < k ==> !ocorre_em(s, p, j),
            None => forall|j: int| i <= j ==> !ocorre_em(s, p, j),
        },
    decreases s.len() + 1 - i,
{
    if i + p.len() <= s.len() && s.subrange(i, i + p.len()) != p {
        lema_achar_desde(s, p, i + 1);
    }
}

/// Whether `c` is Unicode whitespace (what `char::is_whitespace` answers).
pub fn eh_espaco_exec(c: char) -> (r: bool)
    ensures
        r == eh_espaco(c),
{
    let u = c as u32;
    (9 <= u && u <= 13) || u == 32 || u == 0x85 || u == 0xA0 || u == 0x1680 || (0x2000 <= u
        && u <= 0x200A) || u == 0x2028 || u == 0x2029 || u == 0x202F || u == 0x205F || u == 0x3000
}

/// The characters `v[a..b]` as a new vector.
pub fn trecho(v: &Vec<char>, a: usize, b: usize) -> (r: Vec<char>)
    requires
        a <= b <= v@.len(),
    ensures
        r@ == v@.subrange(a as int, b as int),
{
    let mut r: Vec<char> = Vec::new();
    let mut i = a;
    while i < b
        invariant
            a <= i <= b <= v@.len(),
            r@ == v@.subrange(a as int, i as int),
        decreases b - i,
    {
        r.push(v[i]);
        i = i + 1;
    }
    r
}

/// A `String` holding the given characters.
pub fn string_de(v: &Vec<char>) -> (r: String)
    ensures
        r@ == v@,
{
    let mut r = String::new();
    let mut i: usize = 0;
    while i < v.len()
        invariant
            i <= v@.len(),
            r@ == v@.take(i as int),
        decreases v@.len() - i,
    {
        empurrar_char(&mut r, v[i]);
        assert(v@.take(i + 1) =~= v@.take(i as int).push(v@[i as int]));
        i = i + 1;
    }
    assert(v@.take(v@.len() as int) =~= v@);
    r
}

/// Index of the first character of `v` that is not whitespace (or its length).
pub fn inicio_sem_espaco(v: &Vec<char>) -> (k: usize)
    ensures
        k <= v@.len(),
        aparar_inicio(v@) == v@.skip(k as int),
{
    let mut k: usize = 0;
    assert(v@.skip(0) =~= v@);
    while k < v.len() && eh_espaco_exec(v[k])
        invariant
            k <= v@.len(),
            aparar_inicio(v@) == aparar_inicio(v@.skip(k as int)),
        decreases v@.len() - k,
    {
        assert(v@.skip(k as int).drop_first() =~= v@.skip(k + 1));
        k = k + 1;
    }
    k
}

/// One past the last character of `v[..b]` that is not whitespace (or zero).
pub fn fim_sem_espaco(v: &Vec<char>, b: usize) -> (k: usize)
    requires
        b <= v@.len(),
    ensures
        k <= b,
        aparar_fim(v@.take(b as int)) == v@.take(k as int),
{
    let mut k: usize = b;
    while k > 0 && eh_espaco_exec(v[k - 1])
        invariant
            k <= b <= v@.len(),
            aparar_fim(v@.take(b as int)) == aparar_fim(v@.take(k as int)),
        decreases k,
    {
        assert(v@.take(k as int).drop_last() =~= v@.take(k - 1));
        k = k - 1;
    }
    k
}

/// `v` without leading and trailing whitespace.
pub fn aparar_vec(v: &Vec<char>) -> (r: Vec<char>)
    ensures
        r@ == aparar(v@),
{
    let a = inicio_sem_espaco(v);
    let resto = trecho(v, a, v.len());
    assert(resto@ =~= v@.skip(a as int));
    let b = fim_sem_espaco(&resto, resto.len());
    assert(resto@.take(resto@.len() as int) =~= resto@);
    trecho(&resto, 0, b)
}

/// `v` without leading whitespace.
pub fn aparar_inicio_vec(v: &Vec<char>) -> (r: Vec<char>)
    ensures
        r@ == aparar_inicio(v@),
{
    let a = inicio_sem_espaco(v);
    let r = trecho(v, a, v.len());
    assert(r@ =~= v@.skip(a as int));
    r
}

/// Whether `p` occurs in `v` at position `i`.
pub fn ocorre_em_exec(v: &Vec<char>, p: &Vec<char>, i: usize) -> (r: bool)
    ensures
        r == ocorre_em(v@, p@, i as int),
{
    if i > v.len() || p.len() > v.len() - i {
        return false;
    }
    let n = v.len();
    let mut j: usize = 0;
    while j < p.len()
        invariant
            n == v@.len(),
            i <= v@.len(),
            i + p@.len() <= v@.len(),
            j <= p@.len(),
            forall|t: int| 0 <= t < j ==> v@[i + t] == p@[t],
        decreases p@.len() - j,
    {
        assert(i + j < v@.len());
        if v[i + j] != p[j] {
            assert(v@.subrange(i as int, i + p@.len())[j as int] != p@[j as int]);
            return false;
        }
        j = j + 1;
    }
    assert(v@.subrange(i as int, i + p@.len()) =~= p@);
    true
}

/// Whether `v` starts with `p`.
pub fn comeca_com_exec(v: &Vec<char>, p: &Vec<char>) -> (r: bool)
    ensures
        r == comeca_com(v@, p@),
{
    let r = ocorre_em_exec(v, p, 0);
    assert(v@.subrange(0, p@.len() as int) =~= v@.take(p@.len() as int));
    r
}

/// Whether `v` ends with `p`.
pub fn termina_com_exec(v: &Vec<char>, p: &Vec<char>) -> (r: bool)
    ensures
        r == termina_com(v@, p@),
{
    if p.len() > v.len() {
        return false;
    }
    let r = ocorre_em_exec(v, p, v.len() - p.len());
    assert(v@.subrange(v@.len() - p@.len(), v@.len() as int) =~= v@.skip(v@.len() - p@.len()));
    r
}

/// The first position where `p` occurs in `v` (`str::find`, for a pattern
/// that is not empty).
pub fn achar_exec(v: &Vec<char>, p: &Vec<char>) -> (r: Option<usize>)
    requires
        p@.len() > 0,
    ensures
        match r {
            Some(k) => achar(v@, p@) == Some(k as int),
            None => achar(v@, p@) is None,
        },
{
    let mut i: usize = 0;
    while p.len() <= v.len() - i
        invariant
            p@.len() > 0,
            i <= v@.len(),
            achar(v@, p@) == achar_desde(v@, p@, i as int),
        decreases v@.len() - i,
    {
        if ocorre_em_exec(v, p, i) {
            return Some(i);
        }
        i = i + 1;
    }
    None
}

/// `str::split_once` on character vectors, for a pattern that is not empty.
pub fn dividir_em_exec(v: &Vec<char>, p: &Vec<char>) -> (r: Option<(Vec<char>, Vec<char>)>)
    requires
        p@.len() > 0,
    ensures
        match r {
            Some((a, b)) => dividir_em(v@, p@) == Some((a@, b@)),
            None => dividir_em(v@, p@) is None,
        },
{
    match achar_exec(v, p) {
        Some(k) => {
            proof {
                lema_achar_desde(v@, p@, 0);
                assert(ocorre_em(v@, p@, k as int));
            }
            let n = v.len();
            let a = trecho(v, 0, k);
            let b = trecho(v, k + p.len(), n);
            assert(a@ =~= v@.take(k as int));
            assert(b@ =~= v@.skip(k + p@.len()));
            Some((a, b))
        },
        None => None,
    }
}

/// `str::strip_prefix` on character vectors.
pub fn sem_prefixo_exec(v: &Vec<char>, p: &Vec<char>) -> (r: Option<Vec<char>>)
    ensures
        match r {
            Some(a) => sem_prefixo(v@, p@) == Some(a@),
            None => sem_prefixo(v@, p@) is None,
        },
{
    if comeca_com_exec(v, p) {
        let a = trecho(v, p.len(), v.len());
        assert(a@ =~= v@.skip(p@.len() as int));
        Some(a)
    } else {
        None
    }
}


/// Whether `v` and `p` hold the same characters.
pub fn iguais_exec(v: &Vec<char>, p: &Vec<char>) -> (r: bool)
    ensures
        r == (v@ == p@),
{
    if v.len() != p.len() {
        return false;
    }
    let r = comeca_com_exec(v, p);
    assert(v@.take(p@.len() as int) =~= v@);
    r
}

/// ASCII lower case of one character (`char::to_ascii_lowercase`).
pub open spec fn minuscula_ascii(c: char) -> char {
    if 'A' <= c <= 'Z' {
        ((c as u32) + 32) as char
    } else {
        c
    }
}

/// ASCII lower case of a text (`str::to_ascii_lowercase`).
pub open spec fn minusculas_ascii(s: Seq<char>) -> Seq<char> {
    s.map_values(|c: char| minuscula_ascii(c))
}

/// The ASCII lower case of `v`.
pub fn minusculas_ascii_vec(v: &Vec<char>) -> (r: Vec<char>)
    ensures
        r@ == minusculas_ascii(v@),
{
    let mut r: Vec<char> = Vec::new();
    let mut i: usize = 0;
    while i < v.len()
        invariant
            i <= v@.len(),
            r@ == minusculas_ascii(v@.take(i as int)),
        decreases v@.len() - i,
    {
        let c = v[i];
        let m = if 'A' <= c && c <= 'Z' {
            ((c as u8) + 32) as char
        } else {
            c
        };
        r.push(m);
        assert(minusculas_ascii(v@.take(i + 1)) =~= minusculas_ascii(v@.take(i as int)).push(minuscula_ascii(c)));
        i = i + 1;
    }
    assert(v@.take(v@.len() as int) =~= v@);
    r
}

/// The only occurrence of `p` before or at `k` is the one at `k`: then it is the first.
pub proof fn lema_achar_em(s: Seq<char>, p: Seq<char>, k: int, i: int)
    requires
        0 <= i <= k,
        ocorre_em(s, p, k),
        forall|j: int| i <= j < k ==> !ocorre_em(s, p, j),
    ensures
        achar_desde(s, p, i) == Some(k),
    decreases k - i,
{
    if i < k {
        assert(!ocorre_em(s, p, i));
        lema_achar_em(s, p, k, i + 1);
    }
}

} // verus!
