use vstd::prelude::*;

use crate::calculadora::{
    aplicar, error_de_division, es_aplicable, ley_leer_operacion_escrita, operacion_de,
    texto_de_operacion, Calculator, Operation,
};
use crate::texto::{
    caracteres, decimal, es_espacio, lema_decimal, lema_dos_palabras, palabras, separar_palabras,
    sin_espacios, texto_decimal, vista_palabras,
};

verus! {

/// What the server does after a message: answer and keep reading, or give the last
/// answer and close the connection.
pub enum Accion {
    /// Send `texto` to the client; `es_error` tells whether it is logged as an error.
    Responder { texto: String, es_error: bool },
    /// Send `texto`, the calculator's value, and close the connection.
    Finalizar { texto: String },
}

/// An action seen as plain values: whether it closes the connection, the text sent
/// and whether that text is logged as an error.
pub struct VistaAccion {
    pub fin: bool,
    pub texto: Seq<char>,
    pub es_error: bool,
}

impl View for Accion {
    type V = VistaAccion;

    open spec fn view(&self) -> VistaAccion {
        match self {
            Accion::Responder { texto, es_error } => VistaAccion {
                fin: false,
                texto: texto@,
                es_error: *es_error,
            },
            Accion::Finalizar { texto } => VistaAccion { fin: true, texto: texto@, es_error: false },
        }
    }
}

/// The answer that carries the value `v`.
pub open spec fn texto_valor(v: u8) -> Seq<char> {
    "VALUE "@ + decimal(v as nat)
}

/// The word that asks for the value.
pub open spec fn palabra_get() -> Seq<char> {
    seq!['G', 'E', 'T']
}

/// The word that heads an operation.
pub open spec fn palabra_op() -> Seq<char> {
    seq!['O', 'P']
}

/// The calculator's next value and the action for the message `m`, read as words:
/// `GET` closes with the value; `OP` applies the operation that the whole message
/// asks for; anything else is answered with an error.
pub open spec fn atencion(v: u8, m: Seq<char>) -> (u8, VistaAccion) {
    let t = palabras(m);
    if t.len() == 0 {
        (v, VistaAccion { fin: false, texto: "ERROR \"mensaje vacío\"\n"@, es_error: true })
    } else if t[0] == palabra_get() {
        (v, VistaAccion { fin: true, texto: texto_valor(v), es_error: false })
    } else if t[0] == palabra_op() {
        match operacion_de(m) {
            Ok(op) => (aplicar(v, op), VistaAccion { fin: false, texto: "OK\n"@, es_error: false }),
            Err(e) => (
                v,
                VistaAccion { fin: false, texto: "ERROR \""@ + e + "\"\n"@, es_error: true },
            ),
        }
    } else {
        (
            v,
            VistaAccion {
                fin: false,
                texto: "ERROR: \"unexpected message\"\n"@,
                es_error: true,
            },
        )
    }
}

/// Whether the characters `w` are exactly `G`, `E`, `T`.
fn es_get(w: &Vec<char>) -> (r: bool)
    ensures
        r == (w@ == palabra_get()),
{
    let r = w.len() == 3 && w[0] == 'G' && w[1] == 'E' && w[2] == 'T';
    assert(r ==> w@ =~= palabra_get());
    r
}

/// Whether the characters `w` are exactly `O`, `P`.
fn es_op(w: &Vec<char>) -> (r: bool)
    ensures
        r == (w@ == palabra_op()),
{
    let r = w.len() == 2 && w[0] == 'O' && w[1] == 'P';
    assert(r ==> w@ =~= palabra_op());
    r
}

/// The answer that carries the calculator's value.
fn respuesta_valor(calculadora: &Calculator) -> (s: String)
    ensures
        s@ == texto_valor(calculadora@),
{
    let mut s = "VALUE ".to_owned();
    let numero = texto_decimal(calculadora.value() as u32);
    s.append(numero.as_str());
    s
}

/// Handles one message of a connection: decides the answer and updates the calculator.
pub fn atender_mensaje(calculadora: &mut Calculator, mensaje: &str) -> (a: Accion)
    ensures
        (final(calculadora)@, a@) == atencion(old(calculadora)@, mensaje@),
{
    let cs = caracteres(mensaje);
    let t = separar_palabras(&cs);
    let ghost vt = vista_palabras(t@);
    if t.len() == 0 {
        return Accion::Responder { texto: "ERROR \"mensaje vacío\"\n".to_owned(), es_error: true };
    }
    assert(vt[0] == t@[0]@);
    if es_get(&t[0]) {
        return Accion::Finalizar { texto: respuesta_valor(calculadora) };
    }
    if es_op(&t[0]) {
        match Operation::from_str(mensaje) {
            Ok(op) => {
                calculadora.apply(op);
                Accion::Responder { texto: "OK\n".to_owned(), es_error: false }
            },
            Err(e) => {
                let mut texto = "ERROR \"".to_owned();
                texto.append(e);
                texto.append("\"\n");
                Accion::Responder { texto, es_error: true }
            },
        }
    } else {
        Accion::Responder { texto: "ERROR: \"unexpected message\"\n".to_owned(), es_error: true }
    }
}

/// The calculator's next value and the action for the message `m` in the simpler
/// exchange: the text `GET` closes with the value; any other text is read as an
/// operation, whose answer is `OK` or the error, both without an end of line.
pub open spec fn atencion_de_operacion(v: u8, m: Seq<char>) -> (u8, VistaAccion) {
    if m == palabra_get() {
        (v, VistaAccion { fin: true, texto: texto_valor(v), es_error: false })
    } else {
        match operacion_de(m) {
            Ok(op) => (aplicar(v, op), VistaAccion { fin: false, texto: "OK"@, es_error: false }),
            Err(e) => (v, VistaAccion { fin: false, texto: "ERROR: \""@ + e + "\""@, es_error: true }),
        }
    }
}

/// Handles one message of the simpler exchange: decides the answer and updates the
/// calculator.
pub fn atender_operacion(calculadora: &mut Calculator, mensaje: &str) -> (a: Accion)
    ensures
        (final(calculadora)@, a@) == atencion_de_operacion(old(calculadora)@, mensaje@),
{
    let cs = caracteres(mensaje);
    if es_get(&cs) {
        return Accion::Finalizar { texto: respuesta_valor(calculadora) };
    }
    match Operation::from_str(mensaje) {
        Ok(op) => {
            calculadora.apply(op);
            Accion::Responder { texto: "OK".to_owned(), es_error: false }
        },
        Err(e) => {
            let mut texto = "ERROR: \"".to_owned();
            texto.append(e);
            texto.append("\"");
            Accion::Responder { texto, es_error: true }
        },
    }
}

/// A message that is answered with an error leaves the calculator as it was, in both
/// exchanges.
pub proof fn ley_rechazo_no_cambia(v: u8, m: Seq<char>)
    ensures
        atencion(v, m).1.es_error ==> atencion(v, m).0 == v,
        atencion_de_operacion(v, m).1.es_error ==> atencion_de_operacion(v, m).0 == v,
{
}

/// Asking for the value closes the exchange with the value and leaves it as it was, in
/// both exchanges.
pub proof fn ley_consulta(v: u8, m: Seq<char>)
    ensures
        palabras(m).len() > 0 && palabras(m)[0] == palabra_get() ==> atencion(v, m) == (
            v,
            VistaAccion { fin: true, texto: texto_valor(v), es_error: false },
        ),
        m == palabra_get() ==> atencion_de_operacion(v, m) == (
            v,
            VistaAccion { fin: true, texto: texto_valor(v), es_error: false },
        ),
{
}

/// An operation sent as the client sends it, `OP`, the operator and the operand, is
/// applied to the calculator and answered `OK`; a division by zero is refused and
/// leaves the value as it was. This holds in both exchanges.
pub proof fn ley_operacion_enviada(v: u8, op: Operation)
    ensures
        es_aplicable(op) ==> atencion_de_operacion(v, texto_de_operacion(palabra_op(), op)) == (
            aplicar(v, op),
            VistaAccion { fin: false, texto: "OK"@, es_error: false },
        ),
        !es_aplicable(op) ==> atencion_de_operacion(v, texto_de_operacion(palabra_op(), op)) == (
            v,
            VistaAccion {
                fin: false,
                texto: "ERROR: \""@ + error_de_division() + "\""@,
                es_error: true,
            },
        ),
        es_aplicable(op) ==> atencion(v, texto_de_operacion(palabra_op(), op)) == (
            aplicar(v, op),
            VistaAccion { fin: false, texto: "OK\n"@, es_error: false },
        ),
        !es_aplicable(op) ==> atencion(v, texto_de_operacion(palabra_op(), op)) == (
            v,
            VistaAccion {
                fin: false,
                texto: "ERROR \""@ + error_de_division() + "\"\n"@,
                es_error: true,
            },
        ),
{
    assert(sin_espacios(palabra_op()));
    ley_leer_operacion_escrita(palabra_op(), op);
    let m = texto_de_operacion(palabra_op(), op);
    assert(palabras(m)[0] == palabra_op());
    assert(m.len() != palabra_get().len());
}

/// The value that closes an exchange is read back by the client as its decimal
/// numeral: the answer has two words and the second is the value.
pub proof fn ley_valor_informado(v: u8)
    ensures
        palabras(texto_valor(v)) == seq!["VALUE"@, decimal(v as nat)],
{
    reveal_strlit("VALUE ");
    reveal_strlit("VALUE");
    lema_decimal(v as nat);
    let d = decimal(v as nat);
    assert forall|i: int| 0 <= i < d.len() implies !es_espacio(#[trigger] d[i]) by {
        assert(0x30 <= (d[i] as u32) <= 0x39);
    }
    assert("VALUE "@ =~= "VALUE"@ + seq![' ']);
    lema_dos_palabras("VALUE"@, d);
    assert(texto_valor(v) =~= "VALUE"@ + seq![' '] + d);
}

} // verus!
