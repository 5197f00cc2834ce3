use vstd::prelude::*;
use crate::texto::empurrar_char;
use vstd::string::StringSliceAdditionalSpecFns;
use vstd::utf8::*;

verus! {

/// The value of one symbol of the standard base64 alphabet, or `None`
/// for a byte outside it.
pub open spec fn valor_base64_spec(byte: u8) -> Option<u8> {
    if 65 <= byte <= 90 {
        Some((byte - 65) as u8)
    } else if 97 <= byte <= 122 {
        Some((byte - 97 + 26) as u8)
    } else if 48 <= byte <= 57 {
        Some((byte - 48 + 52) as u8)
    } else if byte == 43 {
        Some(62u8)
    } else if byte == 47 {
        Some(63u8)
    } else {
        None
    }
}

/// ASCII code of the base64 symbol for a six-bit value.
pub open spec fn codigo_simbolo(v: u8) -> u8 {
    if v < 26 {
        (v + 65) as u8
    } else if v < 52 {
        (v - 26 + 97) as u8
    } else if v < 62 {
        (v - 52 + 48) as u8
    } else if v == 62 {
        43u8
    } else {
        47u8
    }
}

/// The base64 symbol for a six-bit value.
pub open spec fn simbolo_spec(v: u8) -> char {
    codigo_simbolo(v) as char
}

/// The four symbols that encode a group of `n` bytes (`1 <= n <= 3`);
/// the bytes past `n` are given as zero.
pub open spec fn quarteto(b0: u8, b1: u8, b2: u8, n: int) -> Seq<char> {
    seq![
        simbolo_spec(b0 >> 2),
        simbolo_spec(((b0 & 3) << 4) | (b1 >> 4)),
        if n > 1 { simbolo_spec(((b1 & 15) << 2) | (b2 >> 6)) } else { '=' },
        if n > 2 { simbolo_spec(b2 & 63) } else { '=' },
    ]
}

/// Standard base64 (RFC 4648) of a byte sequence, with `=` padding.
pub open spec fn codificar(b: Seq<u8>) -> Seq<char>
    decreases b.len(),
{
    if b.len() == 0 {
        seq![]
    } else if b.len() <= 3 {
        quarteto(b[0], if b.len() > 1 { b[1] } else { 0 }, if b.len() > 2 { b[2] } else { 0 }, b.len() as int)
    } else {
        quarteto(b[0], b[1], b[2], 3) + codificar(b.skip(3))
    }
}

/// ASCII whitespace as `u8::is_ascii_whitespace` defines it.
pub open spec fn espaco_ascii(b: u8) -> bool {
    b == 32 || b == 9 || b == 10 || b == 12 || b == 13
}

/// The bytes of `s` that are not ASCII whitespace, in order.
pub open spec fn sem_espacos(s: Seq<u8>) -> Seq<u8>
    decreases s.len(),
{
    if s.len() == 0 {
        seq![]
    } else if espaco_ascii(s.last()) {
        sem_espacos(s.drop_last())
    } else {
        sem_espacos(s.drop_last()).push(s.last())
    }
}

/// Decodes one group of four symbols. The first two must be symbols of the
/// alphabet; each of the last two is a symbol or `=`, and a `=` drops the
/// byte that would end in it.
pub open spec fn decodificar_bloco(c0: u8, c1: u8, c2: u8, c3: u8) -> Option<Seq<u8>> {
    match (valor_base64_spec(c0), valor_base64_spec(c1)) {
        (Some(v0), Some(v1)) => {
            let o2 = if c2 == 61 { Some(0u8) } else { valor_base64_spec(c2) };
            let o3 = if c3 == 61 { Some(0u8) } else { valor_base64_spec(c3) };
            match (o2, o3) {
                (Some(v2), Some(v3)) => Some(
                    seq![((v0 << 2) | (v1 >> 4)) as u8]
                    + (if c2 != 61 { seq![(((v1 & 15) << 4) | (v2 >> 2)) as u8] } else { seq![] })
                    + (if c3 != 61 { seq![(((v2 & 3) << 6) | v3) as u8] } else { seq![] }),
                ),
                _ => None,
            }
        },
        _ => None,
    }
}

/// Decodes a sequence of whole groups of four symbols, failing when any group fails.
pub open spec fn decodificar_blocos(s: Seq<u8>) -> Option<Seq<u8>>
    decreases s.len(),
{
    if s.len() < 4 {
        if s.len() == 0 { Some(seq![]) } else { None }
    } else {
        match decodificar_bloco(s[0], s[1], s[2], s[3]) {
            Some(bloco) => match decodificar_blocos(s.skip(4)) {
                Some(resto) => Some(bloco + resto),
                None => None,
            },
            None => None,
        }
    }
}

/// What decoding gives for the UTF-8 bytes of a text: whitespace is dropped,
/// the rest must come in whole groups of four.
pub open spec fn decodificar_spec(bytes: Seq<u8>) -> Option<Seq<u8>> {
    let limpos = sem_espacos(bytes);
    if limpos.len() % 4 != 0 {
        None
    } else {
        decodificar_blocos(limpos)
    }
}

/// Maps a byte of the base64 alphabet to the six bits it stands for.
pub fn valor_base64(byte: u8) -> (r: Option<u8>)
    ensures
        r == valor_base64_spec(byte),
{
    if 65 <= byte && byte <= 90 {
        Some(byte - 65)
    } else if 97 <= byte && byte <= 122 {
        Some(byte - 97 + 26)
    } else if 48 <= byte && byte <= 57 {
        Some(byte - 48 + 52)
    } else if byte == 43 {
        Some(62)
    } else if byte == 47 {
        Some(63)
    } else {
        None
    }
}

fn simbolo(v: u8) -> (c: char)
    requires
        v < 64,
    ensures
        c == simbolo_spec(v),
{
    let codigo: u8 = if v < 26 {
        v + 65
    } else if v < 52 {
        v - 26 + 97
    } else if v < 62 {
        v - 52 + 48
    } else if v == 62 {
        43
    } else {
        47
    };
    codigo as char
}

/// Encodes bytes in standard base64 with `=` padding.
pub fn base64_encode(bytes: &[u8]) -> (saida: String)
    ensures
        saida@ == codificar(bytes@),
{
    let mut saida = String::new();
    let n = bytes.len();
    let mut i: usize = 0;
    assert(bytes@.skip(0) =~= bytes@);
    while i < n
        invariant
            n == bytes@.len(),
            i <= n,
            codificar(bytes@) == saida@ + codificar(bytes@.skip(i as int)),
        decreases n - i,
    {
        let resto = n - i;
        let b0 = bytes[i];
        let b1: u8 = if resto > 1 { bytes[i + 1] } else { 0 };
        let b2: u8 = if resto > 2 { bytes[i + 2] } else { 0 };
        let ghost antes = saida@;
        let ghost cauda = bytes@.skip(i as int);
        assert(b0 >> 2 < 64 && (((b0 & 3) << 4) | (b1 >> 4)) < 64
            && (((b1 & 15) << 2) | (b2 >> 6)) < 64 && (b2 & 63) < 64) by (bit_vector);
        empurrar_char(&mut saida, simbolo(b0 >> 2));
        empurrar_char(&mut saida, simbolo(((b0 & 3) << 4) | (b1 >> 4)));
        if resto > 1 {
            empurrar_char(&mut saida, simbolo(((b1 & 15) << 2) | (b2 >> 6)));
        } else {
            empurrar_char(&mut saida, '=');
        }
        if resto > 2 {
            empurrar_char(&mut saida, simbolo(b2 & 63));
        } else {
            empurrar_char(&mut saida, '=');
        }
        let ghost q = quarteto(b0, b1, b2, if resto > 3 { 3 } else { resto as int });
        assert(saida@ =~= antes + q);
        if resto > 3 {
            assert(cauda.skip(3) =~= bytes@.skip(i + 3));
            i = i + 3;
        } else {
            assert(bytes@.skip(n as int) =~= Seq::<u8>::empty());
            i = n;
        }
    }
    saida
}


/// Decodes base64 text: ASCII whitespace is skipped, the rest must come in
/// whole groups of four symbols, and `=` in the third or fourth place of a
/// group drops the byte that would end there.
pub fn base64_decode(texto: &str) -> (r: Option<Vec<u8>>)
    ensures
        match r {
            Some(v) => decodificar_spec(texto.spec_bytes()) == Some(v@),
            None => decodificar_spec(texto.spec_bytes()) is None,
        },
{
    let todos = texto.as_bytes();
    let n = todos.len();
    let mut bytes: Vec<u8> = Vec::new();
    let mut i: usize = 0;
    while i < n
        invariant
            n == todos@.len(),
            todos@ == texto.spec_bytes(),
            i <= n,
            bytes@ == sem_espacos(todos@.take(i as int)),
        decreases n - i,
    {
        let b = todos[i];
        assert(todos@.take(i + 1).drop_last() =~= todos@.take(i as int));
        if !(b == 32 || b == 9 || b == 10 || b == 12 || b == 13) {
            bytes.push(b);
        }
        i = i + 1;
    }
    assert(todos@.take(n as int) =~= todos@);
    if bytes.len() % 4 != 0 {
        return None;
    }
    let m = bytes.len();
    let mut saida: Vec<u8> = Vec::new();
    let mut j: usize = 0;
    assert(bytes@.skip(0) =~= bytes@);
    while j < m
        invariant
            m == bytes@.len(),
            m % 4 == 0,
            bytes@ == sem_espacos(texto.spec_bytes()),
            j <= m,
            j % 4 == 0,
            decodificar_blocos(bytes@.skip(j as int)) matches Some(resto) ==>
                decodificar_blocos(bytes@) == Some(saida@ + resto),
            decodificar_blocos(bytes@.skip(j as int)) is None ==>
                decodificar_blocos(bytes@) is None,
        decreases m - j,
    {
        let ghost cauda = bytes@.skip(j as int);
        assert(cauda.skip(4) =~= bytes@.skip(j + 4));
        let c0 = bytes[j];
        let c1 = bytes[j + 1];
        let c2 = bytes[j + 2];
        let c3 = bytes[j + 3];
        assert(cauda[0] == c0 && cauda[1] == c1 && cauda[2] == c2 && cauda[3] == c3);
        let v0 = match valor_base64(c0) {
            Some(v) => v,
            None => return None,
        };
        let v1 = match valor_base64(c1) {
            Some(v) => v,
            None => return None,
        };
        let v2: u8 = if c2 == 61 {
            0
        } else {
            match valor_base64(c2) {
                Some(v) => v,
                None => return None,
            }
        };
        let v3: u8 = if c3 == 61 {
            0
        } else {
            match valor_base64(c3) {
                Some(v) => v,
                None => return None,
            }
        };
        let ghost antes = saida@;
        saida.push((v0 << 2) | (v1 >> 4));
        if c2 != 61 {
            saida.push(((v1 & 15) << 4) | (v2 >> 2));
        }
        if c3 != 61 {
            saida.push(((v2 & 3) << 6) | v3);
        }
        assert(decodificar_bloco(c0, c1, c2, c3) == Some(saida@.subrange(antes.len() as int, saida@.len() as int)));
        assert(saida@ =~= antes + saida@.subrange(antes.len() as int, saida@.len() as int));
        j = j + 4;
    }
    assert(bytes@.skip(m as int) =~= Seq::<u8>::empty());
    Some(saida)
}


/// ASCII codes of the four symbols of `quarteto`.
pub open spec fn quarteto_bytes(b0: u8, b1: u8, b2: u8, n: int) -> Seq<u8> {
    seq![
        codigo_simbolo(b0 >> 2),
        codigo_simbolo(((b0 & 3) << 4) | (b1 >> 4)),
        if n > 1 { codigo_simbolo(((b1 & 15) << 2) | (b2 >> 6)) } else { 61u8 },
        if n > 2 { codigo_simbolo(b2 & 63) } else { 61u8 },
    ]
}

/// ASCII codes of `codificar(b)`.
pub open spec fn codificar_bytes(b: Seq<u8>) -> Seq<u8>
    decreases b.len(),
{
    if b.len() == 0 {
        seq![]
    } else if b.len() <= 3 {
        quarteto_bytes(b[0], if b.len() > 1 { b[1] } else { 0 }, if b.len() > 2 { b[2] } else { 0 }, b.len() as int)
    } else {
        quarteto_bytes(b[0], b[1], b[2], 3) + codificar_bytes(b.skip(3))
    }
}

proof fn lema_simbolo(v: u8)
    requires
        v < 64,
    ensures
        simbolo_spec(v) as u8 == codigo_simbolo(v),
        '\0' <= simbolo_spec(v) <= '\u{7f}',
        valor_base64_spec(codigo_simbolo(v)) == Some(v),
        !espaco_ascii(codigo_simbolo(v)),
        codigo_simbolo(v) != 61,
{
}

proof fn lema_bits(b0: u8, b1: u8, b2: u8)
    ensures
        b0 >> 2 < 64,
        (((b0 & 3) << 4) | (b1 >> 4)) < 64,
        (((b1 & 15) << 2) | (b2 >> 6)) < 64,
        b2 & 63 < 64,
        (((b0 >> 2) << 2) | ((((b0 & 3) << 4) | (b1 >> 4)) >> 4)) == b0,
        ((((((b0 & 3) << 4) | (b1 >> 4)) & 15) << 4) | ((((b1 & 15) << 2) | (b2 >> 6)) >> 2)) == b1,
        ((((((b1 & 15) << 2) | (b2 >> 6)) & 3) << 6) | (b2 & 63)) == b2,
        (((b1 & 15) << 2) | (0u8 >> 6)) == ((b1 & 15) << 2),
{
    assert(b0 >> 2 < 64) by (bit_vector);
    assert((((b0 & 3) << 4) | (b1 >> 4)) < 64) by (bit_vector);
    assert((((b1 & 15) << 2) | (b2 >> 6)) < 64) by (bit_vector);
    assert(b2 & 63 < 64) by (bit_vector);
    assert((((b0 >> 2) << 2) | ((((b0 & 3) << 4) | (b1 >> 4)) >> 4)) == b0) by (bit_vector);
    assert(((((((b0 & 3) << 4) | (b1 >> 4)) & 15) << 4) | ((((b1 & 15) << 2) | (b2 >> 6)) >> 2)) == b1) by (bit_vector);
    assert(((((((b1 & 15) << 2) | (b2 >> 6)) & 3) << 6) | (b2 & 63)) == b2) by (bit_vector);
    assert((((b1 & 15) << 2) | (0u8 >> 6)) == ((b1 & 15) << 2)) by (bit_vector);
}

/// The symbols of `codificar(b)` are ASCII, and their codes are `codificar_bytes(b)`.
proof fn lema_codigos(b: Seq<u8>)
    ensures
        codificar(b).len() == codificar_bytes(b).len(),
        forall|i: int| 0 <= i < codificar(b).len() ==>
            '\0' <= #[trigger] codificar(b)[i] <= '\u{7f}' && codificar(b)[i] as u8 == codificar_bytes(b)[i],
    decreases b.len(),
{
    if b.len() > 0 {
        let b1: u8 = if b.len() > 1 { b[1] } else { 0 };
        let b2: u8 = if b.len() > 2 { b[2] } else { 0 };
        lema_bits(b[0], b1, b2);
        lema_simbolo(b[0] >> 2);
        lema_simbolo(((b[0] & 3) << 4) | (b1 >> 4));
        lema_simbolo(((b1 & 15) << 2) | (b2 >> 6));
        lema_simbolo(b2 & 63);
        if b.len() > 3 {
            lema_codigos(b.skip(3));
        }
    }
}

proof fn lema_sem_espacos_identidade(s: Seq<u8>)
    requires
        forall|i: int| 0 <= i < s.len() ==> !espaco_ascii(#[trigger] s[i]),
    ensures
        sem_espacos(s) == s,
    decreases s.len(),
{
    if s.len() > 0 {
        lema_sem_espacos_identidade(s.drop_last());
        assert(s.drop_last().push(s.last()) =~= s);
    }
}

/// Properties of the symbol codes: none is whitespace, and they come in whole
/// groups of four that decode back to the input.
proof fn lema_codigos_decodificam(b: Seq<u8>)
    ensures
        codificar_bytes(b).len() % 4 == 0,
        forall|i: int| 0 <= i < codificar_bytes(b).len() ==> !espaco_ascii(#[trigger] codificar_bytes(b)[i]),
        decodificar_blocos(codificar_bytes(b)) == Some(b),
    decreases b.len(),
{
    if b.len() > 0 {
        let n: int = if b.len() > 3 { 3 } else { b.len() as int };
        let b0 = b[0];
        let b1: u8 = if b.len() > 1 { b[1] } else { 0 };
        let b2: u8 = if b.len() > 2 { b[2] } else { 0 };
        lema_bits(b0, b1, b2);
        lema_simbolo(b0 >> 2);
        lema_simbolo(((b0 & 3) << 4) | (b1 >> 4));
        lema_simbolo(((b1 & 15) << 2) | (b2 >> 6));
        lema_simbolo(b2 & 63);
        let q = quarteto_bytes(b0, b1, b2, n);
        let cb = codificar_bytes(b);
        let primeiros = b.take(n);
        assert(decodificar_bloco(q[0], q[1], q[2], q[3]) == Some(primeiros)) by {
            if n == 1 {
                assert(primeiros =~= seq![b0]);
            } else if n == 2 {
                assert(primeiros =~= seq![b0, b1]);
            } else {
                assert(primeiros =~= seq![b0, b1, b2]);
            }
        }
        if b.len() > 3 {
            lema_codigos_decodificam(b.skip(3));
            let resto = codificar_bytes(b.skip(3));
            assert(cb =~= q + resto);
            assert(cb.skip(4) =~= resto);
            assert(cb[0] == q[0] && cb[1] == q[1] && cb[2] == q[2] && cb[3] == q[3]);
            assert(primeiros + b.skip(3) =~= b);
            assert(decodificar_blocos(cb.skip(4)) == Some(b.skip(3)));
            assert(decodificar_blocos(cb) == Some(primeiros + b.skip(3)));
            assert forall|i: int| 0 <= i < cb.len() implies !espaco_ascii(#[trigger] cb[i]) by {
                if i >= 4 {
                    assert(cb[i] == resto[i - 4]);
                }
            }
        } else {
            assert(cb =~= q);
            assert(q.skip(4) =~= Seq::<u8>::empty());
            assert(primeiros =~= b);
            assert(decodificar_blocos(q.skip(4)) == Some(Seq::<u8>::empty()));
            assert(primeiros + Seq::<u8>::empty() =~= primeiros);
            assert(decodificar_blocos(cb) == Some(primeiros));
        }
    }
}

/// Decoding the base64 text of any byte sequence gives the bytes back.
pub proof fn lei_decodificar_codificado(b: Seq<u8>)
    ensures
        decodificar_spec(encode_utf8(codificar(b))) == Some(b),
{
    lema_codigos(b);
    lema_codigos_decodificam(b);
    let cs = codificar(b);
    assert(is_ascii_chars(cs));
    is_ascii_chars_encode_utf8(cs);
    assert(encode_utf8(cs) =~= codificar_bytes(b));
    lema_sem_espacos_identidade(codificar_bytes(b));
}

/// The base64 text of `b` is ASCII and has four symbols for each started group of three bytes.
pub proof fn lei_tamanho_codificado(b: Seq<u8>)
    ensures
        is_ascii_chars(codificar(b)),
        codificar(b).len() == 4 * ((b.len() + 2) / 3),
    decreases b.len(),
{
    lema_codigos(b);
    if b.len() > 3 {
        lei_tamanho_codificado(b.skip(3));
    }
}

proof fn lema_sem_espacos_limpo(s: Seq<u8>)
    ensures
        forall|i: int| 0 <= i < sem_espacos(s).len() ==> !espaco_ascii(#[trigger] sem_espacos(s)[i]),
    decreases s.len(),
{
    if s.len() > 0 {
        lema_sem_espacos_limpo(s.drop_last());
        let r = sem_espacos(s.drop_last());
        assert forall|i: int| 0 <= i < sem_espacos(s).len() implies !espaco_ascii(#[trigger] sem_espacos(s)[i]) by {
            if i < r.len() {
                assert(sem_espacos(s)[i] == r[i]);
            }
        }
    }
}

/// ASCII whitespace anywhere in the input changes nothing: decoding gives the
/// same as decoding the input without it.
pub proof fn lei_espacos_ignorados(bytes: Seq<u8>)
    ensures
        decodificar_spec(bytes) == decodificar_spec(sem_espacos(bytes)),
{
    lema_sem_espacos_limpo(bytes);
    lema_sem_espacos_identidade(sem_espacos(bytes));
}

/// The `=` in the third and fourth place of each group of four.
pub open spec fn preenchimentos(s: Seq<u8>) -> int
    decreases s.len(),
{
    if s.len() < 4 {
        0
    } else {
        (if s[2] == 61 { 1int } else { 0int }) + (if s[3] == 61 { 1int } else { 0int }) + preenchimentos(s.skip(4))
    }
}

proof fn lema_tamanho_blocos(s: Seq<u8>)
    requires
        decodificar_blocos(s) is Some,
    ensures
        s.len() % 4 == 0,
        decodificar_blocos(s)->0.len() == 3 * (s.len() / 4) - preenchimentos(s),
    decreases s.len(),
{
    if s.len() >= 4 {
        lema_tamanho_blocos(s.skip(4));
    }
}

/// A successful decoding gives three bytes for each group of four symbols,
/// less one for each `=` in a group's third or fourth place.
pub proof fn lei_tamanho_decodificado(bytes: Seq<u8>)
    requires
        decodificar_spec(bytes) is Some,
    ensures
        decodificar_spec(bytes)->0.len() == 3 * (sem_espacos(bytes).len() / 4) - preenchimentos(sem_espacos(bytes)),
{
    lema_tamanho_blocos(sem_espacos(bytes));
}

} // verus!
