use vstd::prelude::*;
use vstd::utf8::{decode_utf8, encode_utf8, valid_utf8};

verus! {



/// Why a frame could not be read.
#[derive(PartialEq, Eq, Debug, Structural, Clone, Copy)]
pub enum ErrorMensaje {
    /// The bytes end before the frame does.
    MensajeIncompleto,
    /// The body of the frame is not UTF-8.
    Utf8Invalido,
}

/// The four bytes of `n`, most significant first, as `u32::to_be_bytes` gives them.
pub open spec fn bytes_be(n: u32) -> Seq<u8> {
    seq![
        (n / 0x100_0000) as u8,
        ((n / 0x1_0000) % 0x100) as u8,
        ((n / 0x100) % 0x100) as u8,
        (n % 0x100) as u8,
    ]
}

/// The number that the first four bytes of `b` write, most significant first, as
/// `u32::from_be_bytes` reads them.
pub open spec fn u32_de_be(b: Seq<u8>) -> u32
    recommends
        b.len() >= 4,
{
    (b[0] * 0x100_0000 + b[1] * 0x1_0000 + b[2] * 0x100 + b[3]) as u32
}

/// The length that heads the frame of a text of `n` bytes: `n` cut to 32 bits.
pub open spec fn longitud_cabecera(n: nat) -> u32 {
    (n % 0x1_0000_0000) as u32
}

/// The frame that carries the text `m`: its length in bytes as four big-endian
/// bytes, then its UTF-8 bytes.
pub open spec fn trama(m: Seq<char>) -> Seq<u8> {
    bytes_be(longitud_cabecera(encode_utf8(m).len())) + encode_utf8(m)
}

/// The frame at the front of `b`, split into its body and the bytes after it; `None`
/// where `b` ends before the frame does.
pub open spec fn leer_trama(b: Seq<u8>) -> Option<(Seq<u8>, Seq<u8>)> {
    if b.len() < 4 {
        None
    } else {
        let n = u32_de_be(b);
        if b.len() < 4 + n {
            None
        } else {
            Some((b.subrange(4, 4 + n), b.subrange(4 + n, b.len() as int)))
        }
    }
}

/// The text that the body `cuerpo` carries, or why it carries none.
pub open spec fn texto_de(cuerpo: Seq<u8>) -> Result<Seq<char>, ErrorMensaje> {
    if valid_utf8(cuerpo) {
        Ok(decode_utf8(cuerpo))
    } else {
        Err(ErrorMensaje::Utf8Invalido)
    }
}

/// `std::str::from_utf8`: gives the text whose UTF-8 bytes are `bytes` where they are
/// valid UTF-8, and an error otherwise. The error's detail is dropped.
#[verifier::external_body]
fn str_desde_utf8(bytes: &[u8]) -> (r: Option<&str>)
    ensures
        r is Some <==> valid_utf8(bytes@),
        r matches Some(s) ==> encode_utf8(s@) == bytes@,
{
    match std::str::from_utf8(bytes) {
        Ok(s) => Some(s),
        Err(_) => None,
    }
}

/// Reads the length that a four-byte header writes, most significant byte first.
pub fn decodificar_longitud(cabecera: &[u8]) -> (n: u32)
    requires
        cabecera@.len() == 4,
    ensures
        n == u32_de_be(cabecera@),
{
    let b0 = cabecera[0] as u32;
    let b1 = cabecera[1] as u32;
    let b2 = cabecera[2] as u32;
    let b3 = cabecera[3] as u32;
    b0 * 0x100_0000 + b1 * 0x1_0000 + b2 * 0x100 + b3
}

/// The text that the bytes of a frame's body carry, or `Utf8Invalido`.
pub fn decodificar_texto(cuerpo: &[u8]) -> (r: Result<String, ErrorMensaje>)
    ensures
        match r {
            Ok(s) => texto_de(cuerpo@) == Ok::<Seq<char>, ErrorMensaje>(s@),
            Err(e) => texto_de(cuerpo@) == Err::<Seq<char>, ErrorMensaje>(e),
        },
{
    match str_desde_utf8(cuerpo) {
        Some(s) => {
            proof {
                vstd::utf8::encode_utf8_decode_utf8(s@);
            }
            Ok(s.to_owned())
        },
        None => Err(ErrorMensaje::Utf8Invalido),
    }
}

/// Writes the frame of `mensaje` at the end of `socket`: its length in bytes as four
/// big-endian bytes, then its bytes.
pub fn enviar_mensaje(mensaje: &String, socket: &mut Vec<u8>) -> (r: Result<(), ErrorMensaje>)
    requires
        old(socket)@.len() + 4 + encode_utf8(mensaje@).len() <= usize::MAX,
    ensures
        r is Ok,
        final(socket)@ == old(socket)@ + trama(mensaje@),
{
    let bytes = mensaje.as_str().as_bytes();
    let largo = bytes.len() as u64;
    let n = (largo % 0x1_0000_0000) as u32;
    socket.push((n / 0x100_0000) as u8);
    socket.push(((n / 0x1_0000) % 0x100) as u8);
    socket.push(((n / 0x100) % 0x100) as u8);
    socket.push((n % 0x100) as u8);
    let ghost antes = socket@;
    socket.extend_from_slice(bytes);
    assert(socket@ =~= antes + bytes@);
    assert(socket@ =~= old(socket)@ + trama(mensaje@));
    Ok(())
}

/// Reads the frame at the front of `socket` and gives the text it carries.
///
/// Where the bytes end before the frame does, nothing is taken from `socket`.
/// Otherwise the whole frame is taken, also where its body is not UTF-8.
pub fn recibir_mensaje(socket: &mut Vec<u8>) -> (r: Result<String, ErrorMensaje>)
    ensures
        match leer_trama(old(socket)@) {
            None => {
                &&& r == Err::<String, ErrorMensaje>(ErrorMensaje::MensajeIncompleto)
                &&& final(socket)@ == old(socket)@
            },
            Some((cuerpo, resto)) => {
                &&& final(socket)@ == resto
                &&& match r {
                    Ok(s) => texto_de(cuerpo) == Ok::<Seq<char>, ErrorMensaje>(s@),
                    Err(e) => texto_de(cuerpo) == Err::<Seq<char>, ErrorMensaje>(e),
                }
            },
        },
{
    if socket.len() < 4 {
        return Err(ErrorMensaje::MensajeIncompleto);
    }
    let ghost antes = socket@;
    let cabecera = &socket.as_slice()[0..4];
    assert(cabecera@ =~= antes.subrange(0, 4));
    let n = decodificar_longitud(cabecera);
    assert(n == u32_de_be(antes));
    if socket.len() - 4 < n as usize {
        return Err(ErrorMensaje::MensajeIncompleto);
    }
    let mut cuerpo = socket.split_off(4);
    let resto = cuerpo.split_off(n as usize);
    *socket = resto;
    assert(cuerpo@ =~= antes.subrange(4, 4 + n));
    assert(socket@ =~= antes.subrange(4 + n, antes.len() as int));
    decodificar_texto(cuerpo.as_slice())
}

/// Reading back the four big-endian bytes of `n` gives `n`.
pub proof fn lema_be_ida_y_vuelta(n: u32)
    ensures
        u32_de_be(bytes_be(n)) == n,
{
    let b = bytes_be(n);
    assert(b[0] * 0x100_0000 + b[1] * 0x1_0000 + b[2] * 0x100 + b[3] == n) by (nonlinear_arith)
        requires
            b[0] == n / 0x100_0000,
            b[1] == (n / 0x1_0000) % 0x100,
            b[2] == (n / 0x100) % 0x100,
            b[3] == n % 0x100,
            n < 0x1_0000_0000,
    ;
}

/// A frame read back: from the bytes of the frame of `m` followed by any bytes
/// `resto`, reading a frame gives the text `m` and leaves `resto`, for every text
/// shorter than 2^32 bytes.
pub proof fn ley_leer_lo_enviado(m: Seq<char>, resto: Seq<u8>)
    requires
        encode_utf8(m).len() < 0x1_0000_0000,
    ensures
        leer_trama(trama(m) + resto) == Some((encode_utf8(m), resto)),
        texto_de(encode_utf8(m)) == Ok::<Seq<char>, ErrorMensaje>(m),
{
    let n: int = encode_utf8(m).len() as int;
    lema_be_ida_y_vuelta(longitud_cabecera(n as nat));
    let b = trama(m) + resto;
    assert(b.subrange(0, 4) =~= bytes_be(longitud_cabecera(n as nat)));
    assert(u32_de_be(b) == u32_de_be(b.subrange(0, 4)));
    assert(b.subrange(4, 4 + n) =~= encode_utf8(m));
    assert(b.subrange(4 + n, b.len() as int) =~= resto);
    vstd::utf8::encode_utf8_valid_utf8(m);
    vstd::utf8::encode_utf8_decode_utf8(m);
}

/// Frames arrive in the order they were sent: from the frames of `m1` and then `m2`,
/// reading a frame gives `m1` and leaves the frame of `m2` first.
pub proof fn ley_orden_de_llegada(m1: Seq<char>, m2: Seq<char>, resto: Seq<u8>)
    requires
        encode_utf8(m1).len() < 0x1_0000_0000,
    ensures
        leer_trama(trama(m1) + trama(m2) + resto) == Some((encode_utf8(m1), trama(m2) + resto)),
{
    assert(trama(m1) + trama(m2) + resto =~= trama(m1) + (trama(m2) + resto));
    ley_leer_lo_enviado(m1, trama(m2) + resto);
}

} // verus!
