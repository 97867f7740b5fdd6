use vstd::prelude::*;

use crate::texto::{caracteres, palabras, separar_palabras, texto_de_caracteres, vista_palabras};

verus! {

/// The message that asks the server to apply the operation written in `linea`.
pub fn mensaje_de_operacion(linea: &str) -> (m: String)
    ensures
        m@ == "OP "@ + linea@,
{
    let mut m = "OP ".to_owned();
    m.append(linea);
    m
}

/// Whether the server's answer is exactly `OK`.
pub fn es_confirmacion(respuesta: &str) -> (r: bool)
    ensures
        r == (respuesta@ == seq!['O', 'K']),
{
    let cs = caracteres(respuesta);
    let r = cs.len() == 2 && cs[0] == 'O' && cs[1] == 'K';
    assert(r ==> cs@ =~= seq!['O', 'K']);
    r
}

/// The second word of the server's last answer, the value it reports; `None` where the
/// answer has fewer than two words.
pub fn valor_informado(respuesta: &str) -> (r: Option<String>)
    ensures
        r is Some <==> palabras(respuesta@).len() >= 2,
        r matches Some(v) ==> v@ == palabras(respuesta@)[1],
{
    let cs = caracteres(respuesta);
    let t = separar_palabras(&cs);
    if t.len() < 2 {
        return None;
    }
    assert(vista_palabras(t@)[1] == t@[1]@);
    Some(texto_de_caracteres(&t[1]))
}

} // verus!
