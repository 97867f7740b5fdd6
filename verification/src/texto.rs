use vstd::prelude::*;

verus! {

broadcast use vstd::string::axiom_spec_iter;

/// Unicode's White_Space property, which `char::is_whitespace` tests and on which
/// `str::split_whitespace` splits.
pub open spec fn es_espacio(c: char) -> bool {
    let u = c as u32;
    ||| 0x09 <= u <= 0x0d
    ||| u == 0x20
    ||| u == 0x85
    ||| u == 0xa0
    ||| u == 0x1680
    ||| 0x2000 <= u <= 0x200a
    ||| u == 0x2028
    ||| u == 0x2029
    ||| u == 0x202f
    ||| u == 0x205f
    ||| u == 0x3000
}

/// Scans `s` from left to right: the words already closed, and the word being read.
pub open spec fn escanear(s: Seq<char>) -> (Seq<Seq<char>>, Seq<char>)
    decreases s.len(),
{
    if s.len() == 0 {
        (Seq::empty(), Seq::empty())
    } else {
        let (cerradas, actual) = escanear(s.drop_last());
        let c = s.last();
        if es_espacio(c) {
            if actual.len() > 0 {
                (cerradas.push(actual), Seq::empty())
            } else {
                (cerradas, Seq::empty())
            }
        } else {
            (cerradas, actual.push(c))
        }
    }
}

/// The maximal runs of non-white-space characters of `s`, in order: what
/// `str::split_whitespace` yields.
pub open spec fn palabras(s: Seq<char>) -> Seq<Seq<char>> {
    let (cerradas, actual) = escanear(s);
    if actual.len() > 0 {
        cerradas.push(actual)
    } else {
        cerradas
    }
}

/// The words of a vector of words, as sequences.
pub open spec fn vista_palabras(v: Seq<Vec<char>>) -> Seq<Seq<char>> {
    v.map_values(|w: Vec<char>| w@)
}

/// Whether `c` has Unicode's White_Space property.
pub fn es_espacio_blanco(c: char) -> (r: bool)
    ensures
        r == es_espacio(c),
{
    let u = c as u32;
    (0x09 <= u && u <= 0x0d) || u == 0x20 || u == 0x85 || u == 0xa0 || u == 0x1680 || (0x2000
        <= u && u <= 0x200a) || u == 0x2028 || u == 0x2029 || u == 0x202f || u == 0x205f || u
        == 0x3000
}

/// The characters of `s`, in order.
pub fn caracteres(s: &str) -> (v: Vec<char>)
    ensures
        v@ == s@,
{
    let mut v: Vec<char> = Vec::new();
    for c in it: s.chars()
        invariant
            it.seq() == s@,
            v@ == it.seq().take(it.index()),
    {
        v.push(c);
    }
    v
}


/// The words of `s`, split on white space as `str::split_whitespace` splits.
pub fn separar_palabras(s: &Vec<char>) -> (r: Vec<Vec<char>>)
    ensures
        vista_palabras(r@) == palabras(s@),
{
    let mut cerradas: Vec<Vec<char>> = Vec::new();
    let mut actual: Vec<char> = Vec::new();
    let n = s.len();
    let mut i: usize = 0;
    while i < n
        invariant
            n == s@.len(),
            i <= n,
            (vista_palabras(cerradas@), actual@) == escanear(s@.take(i as int)),
        decreases n - i,
    {
        let c = s[i];
        assert(s@.take(i + 1).drop_last() =~= s@.take(i as int));
        assert(s@.take(i + 1).last() == c);
        if es_espacio_blanco(c) {
            if actual.len() > 0 {
                let palabra = actual;
                actual = Vec::new();
                proof {
                    assert(vista_palabras(cerradas@.push(palabra)) =~= vista_palabras(cerradas@).push(palabra@));
                }
                cerradas.push(palabra);
            } else {
                actual = Vec::new();
            }
        } else {
            actual.push(c);
        }
        i = i + 1;
    }
    assert(s@.take(n as int) =~= s@);
    if actual.len() > 0 {
        proof {
            assert(vista_palabras(cerradas@.push(actual)) =~= vista_palabras(cerradas@).push(actual@));
        }
        cerradas.push(actual);
    }
    cerradas
}

/// A decimal digit, `'0'` to `'9'`.
pub open spec fn es_digito(c: char) -> bool {
    0x30 <= (c as u32) <= 0x39
}

/// The value of the decimal digit `c`.
pub open spec fn valor_digito(c: char) -> nat {
    ((c as u32) - 0x30) as nat
}

/// A non-empty run of decimal digits.
pub open spec fn solo_digitos(d: Seq<char>) -> bool {
    &&& d.len() > 0
    &&& forall|i: int| 0 <= i < d.len() ==> es_digito(#[trigger] d[i])
}

/// The number that the decimal digits `d` write, most significant first.
pub open spec fn valor_decimal(d: Seq<char>) -> nat
    decreases d.len(),
{
    if d.len() == 0 {
        0
    } else {
        valor_decimal(d.drop_last()) * 10 + valor_digito(d.last())
    }
}

/// `t` without one leading `'+'`, where it has one.
pub open spec fn sin_signo(t: Seq<char>) -> Seq<char> {
    if t.len() > 0 && t[0] == '+' {
        t.drop_first()
    } else {
        t
    }
}

/// What `u8::from_str` gives for `t`: the number, where `t` is an optional `'+'`
/// followed by decimal digits whose value fits in a byte.
pub open spec fn leer_u8(t: Seq<char>) -> Option<u8> {
    let d = sin_signo(t);
    if solo_digitos(d) && valor_decimal(d) <= 255 {
        Some(valor_decimal(d) as u8)
    } else {
        None
    }
}

/// A prefix of a run of digits writes a number no larger than the whole run.
pub proof fn lema_prefijo_no_mayor(d: Seq<char>, k: int)
    requires
        0 <= k <= d.len(),
    ensures
        valor_decimal(d.take(k)) <= valor_decimal(d),
    decreases d.len(),
{
    if k < d.len() {
        assert(d.drop_last().take(k) =~= d.take(k));
        lema_prefijo_no_mayor(d.drop_last(), k);
    } else {
        assert(d.take(k) =~= d);
    }
}

/// Reads a byte from `t` as `u8::from_str` does: an optional `'+'`, then decimal digits.
pub fn leer_byte(t: &Vec<char>) -> (r: Option<u8>)
    ensures
        r == leer_u8(t@),
{
    let n = t.len();
    let inicio: usize = if n > 0 && t[0] == '+' {
        1
    } else {
        0
    };
    let ghost d = sin_signo(t@);
    assert(d =~= t@.subrange(inicio as int, n as int));
    if inicio >= n {
        return None;
    }
    let mut acumulado: u32 = 0;
    let mut i: usize = inicio;
    while i < n
        invariant
            n == t@.len(),
            inicio <= i <= n,
            d == t@.subrange(inicio as int, n as int),
            d == sin_signo(t@),
            forall|j: int| 0 <= j < i - inicio ==> es_digito(#[trigger] d[j]),
            acumulado == valor_decimal(d.take(i - inicio)),
            acumulado <= 255,
        decreases n - i,
    {
        let c = t[i];
        let u = c as u32;
        if !(0x30 <= u && u <= 0x39) {
            assert(d[i - inicio] == c);
            assert(!solo_digitos(d));
            return None;
        }
        assert(d.take(i + 1 - inicio).drop_last() =~= d.take(i - inicio));
        assert(d.take(i + 1 - inicio).last() == c);
        acumulado = acumulado * 10 + (u - 0x30);
        if acumulado > 255 {
            proof {
                lema_prefijo_no_mayor(d, i + 1 - inicio);
                assert(valor_decimal(d) > 255);
            }
            return None;
        }
        i = i + 1;
    }
    assert(d.take(n - inicio) =~= d);
    Some(acumulado as u8)
}

/// The character of the decimal digit `d`.
pub open spec fn caracter_de_digito(d: nat) -> char {
    (0x30 + d) as char
}

/// The decimal numeral of `n`, most significant digit first, without leading zeros.
pub open spec fn decimal(n: nat) -> Seq<char>
    decreases n,
{
    if n < 10 {
        seq![caracter_de_digito(n)]
    } else {
        decimal(n / 10).push(caracter_de_digito(n % 10))
    }
}

/// `String::push`: appends `c` to `s`.
#[verifier::external_body]
fn agregar_caracter(s: &mut String, c: char)
    ensures
        final(s)@ == old(s)@.push(c),
{
    s.push(c);
}

/// The text made of the characters `cs`, in order.
pub fn texto_de_caracteres(cs: &Vec<char>) -> (s: String)
    ensures
        s@ == cs@,
{
    let mut s = String::new();
    let n = cs.len();
    let mut i: usize = 0;
    while i < n
        invariant
            n == cs@.len(),
            i <= n,
            s@ == cs@.take(i as int),
        decreases n - i,
    {
        agregar_caracter(&mut s, cs[i]);
        assert(cs@.take(i + 1) =~= cs@.take(i as int).push(cs@[i as int]));
        i = i + 1;
    }
    assert(cs@.take(n as int) =~= cs@);
    s
}

/// The decimal numeral of `n`, as `u32::to_string` writes it.
pub fn texto_decimal(n: u32) -> (s: String)
    ensures
        s@ == decimal(n as nat),
    decreases n,
{
    if n < 10 {
        let mut s = String::new();
        agregar_caracter(&mut s, ((n as u8) + 0x30) as char);
        s
    } else {
        let mut s = texto_decimal(n / 10);
        agregar_caracter(&mut s, (((n % 10) as u8) + 0x30) as char);
        s
    }
}

/// No character of `w` is white space.
pub open spec fn sin_espacios(w: Seq<char>) -> bool {
    forall|i: int| 0 <= i < w.len() ==> !es_espacio(#[trigger] w[i])
}

/// Reading characters that are not white space extends the word being read.
pub proof fn lema_escanear_palabra(s: Seq<char>, w: Seq<char>)
    requires
        sin_espacios(w),
    ensures
        escanear(s + w) == (escanear(s).0, escanear(s).1 + w),
    decreases w.len(),
{
    if w.len() == 0 {
        assert(s + w =~= s);
        assert(escanear(s).1 + w =~= escanear(s).1);
    } else {
        let w0 = w.drop_last();
        lema_escanear_palabra(s, w0);
        assert((s + w).drop_last() =~= s + w0);
        assert((s + w).last() == w.last());
        assert(escanear(s).1 + w0.push(w.last()) =~= escanear(s).1 + w);
        assert(w0.push(w.last()) =~= w);
    }
}

/// Reading one white-space character closes the word being read, if there is one.
pub proof fn lema_escanear_espacio(s: Seq<char>, c: char)
    requires
        es_espacio(c),
    ensures
        escanear(s.push(c)) == (if escanear(s).1.len() > 0 {
            (escanear(s).0.push(escanear(s).1), Seq::<char>::empty())
        } else {
            (escanear(s).0, Seq::<char>::empty())
        }),
{
    assert(s.push(c).drop_last() =~= s);
}

/// Three words without white space, separated by one space each, split back into
/// those three words.
pub proof fn lema_tres_palabras(a: Seq<char>, b: Seq<char>, c: Seq<char>)
    requires
        a.len() > 0,
        b.len() > 0,
        c.len() > 0,
        sin_espacios(a),
        sin_espacios(b),
        sin_espacios(c),
    ensures
        palabras(a + seq![' '] + b + seq![' '] + c) == seq![a, b, c],
{
    let vacia = Seq::<char>::empty();
    assert(escanear(vacia) == (Seq::<Seq<char>>::empty(), vacia));
    lema_escanear_palabra(vacia, a);
    assert(vacia + a =~= a);
    assert(escanear(a) == (Seq::<Seq<char>>::empty(), a)) by {
        assert(vacia + a =~= a);
        assert(vacia + a == a);
    }
    lema_escanear_espacio(a, ' ');
    let s1 = a.push(' ');
    lema_escanear_palabra(s1, b);
    assert(vacia + b =~= b);
    let s2 = (s1 + b).push(' ');
    lema_escanear_espacio(s1 + b, ' ');
    lema_escanear_palabra(s2, c);
    assert(vacia + c =~= c);
    assert(a + seq![' '] + b + seq![' '] + c =~= s2 + c);
    assert(seq![a].push(b) =~= seq![a, b]);
    assert(seq![a, b].push(c) =~= seq![a, b, c]);
    assert(Seq::<Seq<char>>::empty().push(a) =~= seq![a]);
}

/// The decimal numeral of `n` is a run of digits that writes `n`.
pub proof fn lema_decimal(n: nat)
    ensures
        solo_digitos(decimal(n)),
        valor_decimal(decimal(n)) == n,
        decimal(n).len() > 0,
    decreases n,
{
    assert(valor_digito(caracter_de_digito(n % 10)) == n % 10);
    if n >= 10 {
        lema_decimal(n / 10);
        let d = decimal(n);
        assert(d.drop_last() =~= decimal(n / 10));
        assert(d.last() == caracter_de_digito(n % 10));
        assert((n / 10) * 10 + n % 10 == n) by (nonlinear_arith);
        assert(valor_decimal(d) == valor_decimal(d.drop_last()) * 10 + valor_digito(d.last()));
        assert(valor_decimal(d) == n);
        assert forall|i: int| 0 <= i < d.len() implies es_digito(#[trigger] d[i]) by {
            if i < d.len() - 1 {
                assert(d[i] == decimal(n / 10)[i]);
            }
        }
    } else {
        assert(decimal(n).drop_last() =~= Seq::<char>::empty());
        assert(valor_decimal(decimal(n)) == valor_decimal(Seq::<char>::empty()) * 10 + valor_digito(decimal(n).last()));
    }
}

/// Reading a byte back from its decimal numeral gives the byte.
pub proof fn ley_leer_decimal(v: u8)
    ensures
        leer_u8(decimal(v as nat)) == Some(v),
{
    lema_decimal(v as nat);
    let d = decimal(v as nat);
    assert(es_digito(d[0]));
    assert(sin_signo(d) == d);
}

/// Two words without white space, separated by one space, split back into those two
/// words.
pub proof fn lema_dos_palabras(a: Seq<char>, b: Seq<char>)
    requires
        a.len() > 0,
        b.len() > 0,
        sin_espacios(a),
        sin_espacios(b),
    ensures
        palabras(a + seq![' '] + b) == seq![a, b],
{
    let vacia = Seq::<char>::empty();
    lema_escanear_palabra(vacia, a);
    assert(vacia + a =~= a);
    lema_escanear_espacio(a, ' ');
    let s1 = a.push(' ');
    lema_escanear_palabra(s1, b);
    assert(vacia + b =~= b);
    assert(a + seq![' '] + b =~= s1 + b);
    assert(Seq::<Seq<char>>::empty().push(a) =~= seq![a]);
    assert(seq![a].push(b) =~= seq![a, b]);
}

/// White space is exactly Unicode's White_Space set, code point by code point:
/// tab, line feed, vertical tab, form feed, carriage return, space, next line,
/// no-break space, Ogham space mark, the eleven spaces U+2000 to U+200A, line and
/// paragraph separators, narrow no-break space, medium mathematical space and
/// ideographic space.
pub proof fn ley_espacio_unicode(c: char)
    ensures
        es_espacio(c) <==> {
            let u = c as u32;
            ||| u == 0x09 || u == 0x0a || u == 0x0b || u == 0x0c || u == 0x0d
            ||| u == 0x20 || u == 0x85 || u == 0xa0 || u == 0x1680
            ||| u == 0x2000 || u == 0x2001 || u == 0x2002 || u == 0x2003 || u == 0x2004
            ||| u == 0x2005 || u == 0x2006 || u == 0x2007 || u == 0x2008 || u == 0x2009
            ||| u == 0x200a
            ||| u == 0x2028 || u == 0x2029 || u == 0x202f || u == 0x205f || u == 0x3000
        },
{
}

/// A white-space character at the end of a text adds no word and changes none: a
/// line read with its end of line, `\n` or `\r\n`, has the words of the line.
pub proof fn ley_espacio_final(s: Seq<char>, c: char)
    requires
        es_espacio(c),
    ensures
        palabras(s.push(c)) == palabras(s),
{
    lema_escanear_espacio(s, c);
}

} // verus!
