use vstd::prelude::*;
use vstd::utf8::encode_utf8;

use crate::io::{bytes_be, lema_be_ida_y_vuelta, longitud_cabecera, u32_de_be, ErrorMensaje};

verus! {

/// The line that carries the text `m`: a four-byte big-endian header with the length
/// of the text and its end of line, then the text's UTF-8 bytes, then `'\n'`.
pub open spec fn trama_de_linea(m: Seq<char>) -> Seq<u8> {
    bytes_be(longitud_cabecera(encode_utf8(m).len() + 1)) + encode_utf8(m) + seq![0x0au8]
}

/// Writes the line that carries `mensaje` at the end of `socket`.
pub fn enviar_mensaje(mensaje: &String, socket: &mut Vec<u8>) -> (r: Result<(), ErrorMensaje>)
    requires
        old(socket)@.len() + 5 + encode_utf8(mensaje@).len() <= usize::MAX,
    ensures
        r is Ok,
        final(socket)@ == old(socket)@ + trama_de_linea(mensaje@),
{
    let bytes = mensaje.as_str().as_bytes();
    let largo = bytes.len() as u64 + 1;
    let n = (largo % 0x1_0000_0000) as u32;
    socket.push((n / 0x100_0000) as u8);
    socket.push(((n / 0x1_0000) % 0x100) as u8);
    socket.push(((n / 0x100) % 0x100) as u8);
    socket.push((n % 0x100) as u8);
    let ghost antes = socket@;
    socket.extend_from_slice(bytes);
    assert(socket@ =~= antes + bytes@);
    socket.push(0x0a);
    assert(socket@ =~= old(socket)@ + trama_de_linea(mensaje@));
    Ok(())
}

/// The texts of a vector of strings.
pub open spec fn vista_textos(v: Seq<String>) -> Seq<Seq<char>> {
    v.map_values(|s: String| s@)
}

/// The texts of `l` joined, with `sep` between each two.
pub open spec fn unir(l: Seq<Seq<char>>, sep: Seq<char>) -> Seq<char>
    decreases l.len(),
{
    if l.len() == 0 {
        Seq::empty()
    } else if l.len() == 1 {
        l[0]
    } else {
        unir(l.drop_last(), sep) + sep + l.last()
    }
}

/// Takes in one line of a message that ends at its first empty line: a line with
/// text is kept and reading goes on; an empty line ends the message.
pub fn recibir_linea(partes: &mut Vec<String>, linea: String) -> (seguir: bool)
    ensures
        seguir == (linea@.len() > 0),
        seguir ==> vista_textos(final(partes)@) == vista_textos(old(partes)@).push(linea@),
        !seguir ==> final(partes)@ == old(partes)@,
{
    if linea.as_str().is_empty() {
        false
    } else {
        let ghost l = linea@;
        partes.push(linea);
        assert(vista_textos(partes@) =~= vista_textos(old(partes)@).push(l));
        true
    }
}

/// The lines of a message joined by one space, as `join(" ")` joins them.
pub fn unir_partes(partes: &Vec<String>) -> (m: String)
    ensures
        m@ == unir(vista_textos(partes@), " "@),
{
    let mut m = String::new();
    let n = partes.len();
    let ghost vp = vista_textos(partes@);
    let mut i: usize = 0;
    while i < n
        invariant
            n == partes@.len(),
            vp == vista_textos(partes@),
            i <= n,
            m@ == unir(vp.take(i as int), " "@),
        decreases n - i,
    {
        assert(vp.take(i + 1).drop_last() =~= vp.take(i as int));
        assert(vp.take(i + 1).last() == partes@[i as int]@);
        if i > 0 {
            m.append(" ");
        } else {
            assert(m@ =~= Seq::<char>::empty());
        }
        m.append(partes[i].as_str());
        i = i + 1;
    }
    assert(vp.take(n as int) =~= vp);
    m
}

/// Whether the `n` bytes read so far into `buf` end a line.
pub fn lectura_completa(buf: &[u8], n: usize) -> (r: bool)
    requires
        1 <= n <= buf@.len(),
    ensures
        r == (buf@[n - 1] == 0x0a),
{
    buf[n - 1] == 0x0a
}

/// Two texts joined: the first, the separator, the second.
pub proof fn ley_unir_dos(a: Seq<char>, b: Seq<char>, sep: Seq<char>)
    ensures
        unir(seq![a, b], sep) == a + sep + b,
{
    assert(seq![a, b].drop_last() =~= seq![a]);
    assert(unir(seq![a], sep) == a);
    assert(seq![a, b].last() == b);
}

/// Joining more texts puts the separator between every two of them: adding a text at
/// the end adds the separator and the text; adding one at the front puts it and the
/// separator before the rest.
pub proof fn ley_unir(l: Seq<Seq<char>>, a: Seq<char>, sep: Seq<char>)
    requires
        l.len() >= 1,
    ensures
        unir(l.push(a), sep) == unir(l, sep) + sep + a,
        unir(seq![a] + l, sep) == a + sep + unir(l, sep),
    decreases l.len(),
{
    assert(l.push(a).drop_last() =~= l);
    if l.len() == 1 {
        assert(seq![a] + l =~= seq![a, l[0]]);
        ley_unir_dos(a, l[0], sep);
    } else {
        let m = l.drop_last();
        ley_unir(m, a, sep);
        assert((seq![a] + l).drop_last() =~= seq![a] + m);
        assert((seq![a] + l).last() == l.last());
        assert(a + sep + unir(m, sep) + sep + l.last() =~= a + sep + (unir(m, sep) + sep + l.last()));
    }
}

/// Every line written carries, in order: a four-byte header that reads as the text's
/// length plus one (cut to 32 bits), the text's UTF-8 bytes, and one `'\n'` at the end.
pub proof fn ley_linea_escrita(m: Seq<char>)
    ensures
        trama_de_linea(m).len() == encode_utf8(m).len() + 5,
        u32_de_be(trama_de_linea(m)) as int == (encode_utf8(m).len() + 1) % 0x1_0000_0000,
        trama_de_linea(m).subrange(4, 4 + encode_utf8(m).len() as int) == encode_utf8(m),
        trama_de_linea(m).last() == 0x0au8,
{
    let n = encode_utf8(m).len();
    let t = trama_de_linea(m);
    lema_be_ida_y_vuelta(longitud_cabecera(n + 1));
    assert(t.subrange(0, 4) =~= bytes_be(longitud_cabecera(n + 1)));
    assert(u32_de_be(t) == u32_de_be(t.subrange(0, 4)));
    assert(t.subrange(4, 4 + n as int) =~= encode_utf8(m));
}

} // verus!
