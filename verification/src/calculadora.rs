use vstd::prelude::*;

use crate::texto::{
    caracteres, decimal, es_espacio, lema_decimal, lema_tres_palabras, leer_byte, leer_u8,
    ley_leer_decimal, palabras, separar_palabras, sin_espacios, vista_palabras,
};

verus! {

/// The operations that a client may ask the calculator to apply.
#[derive(PartialEq, Eq, Debug, Structural, Clone, Copy)]
pub enum Operation {
    Add(u8),
    Sub(u8),
    Mul(u8),
    Div(u8),
}

/// An accumulator of one byte, updated by wrapping arithmetic.
pub struct Calculator {
    value: u8,
}

/// The value that results from applying `op` to `value`; arithmetic wraps modulo 256.
pub open spec fn aplicar(value: u8, op: Operation) -> u8 {
    match op {
        Operation::Add(x) => ((value + x) % 256) as u8,
        Operation::Sub(x) => ((value - x) % 256) as u8,
        Operation::Mul(x) => ((value * x) % 256) as u8,
        Operation::Div(x) => (value / x) as u8,
    }
}

/// An operation that can be applied: only a division by zero cannot.
pub open spec fn es_aplicable(op: Operation) -> bool {
    !(op matches Operation::Div(x) && x == 0)
}

/// The message of the error for a text that is not an operation.
pub open spec fn error_de_parseo() -> Seq<char> {
    "parsing error"@
}

/// The message of the error for a division by zero.
pub open spec fn error_de_division() -> Seq<char> {
    "division by zero"@
}

/// The operation that three words ask for: the first is ignored, the second names
/// the operator and the third is the operand. A division by zero is refused before
/// the operator is looked at.
pub open spec fn operacion_de_palabras(t: Seq<Seq<char>>) -> Result<Operation, Seq<char>> {
    if t.len() != 3 {
        Err(error_de_parseo())
    } else {
        match leer_u8(t[2]) {
            None => Err(error_de_parseo()),
            Some(x) => {
                if t[1] == seq!['/'] && x == 0 {
                    Err(error_de_division())
                } else if t[1] == seq!['+'] {
                    Ok(Operation::Add(x))
                } else if t[1] == seq!['-'] {
                    Ok(Operation::Sub(x))
                } else if t[1] == seq!['*'] {
                    Ok(Operation::Mul(x))
                } else if t[1] == seq!['/'] {
                    Ok(Operation::Div(x))
                } else {
                    Err(error_de_parseo())
                }
            },
        }
    }
}

/// The operation that the text `s` asks for, split into words on white space.
pub open spec fn operacion_de(s: Seq<char>) -> Result<Operation, Seq<char>> {
    operacion_de_palabras(palabras(s))
}

/// Whether the exec result `r` is the spec result `e`, errors compared by their text.
pub open spec fn resultado_es(r: Result<Operation, &'static str>, e: Result<Operation, Seq<char>>) -> bool {
    match r {
        Ok(op) => e == Ok::<Operation, Seq<char>>(op),
        Err(m) => e == Err::<Operation, Seq<char>>(m@),
    }
}

/// The character that names the operator of `op`.
pub open spec fn simbolo(op: Operation) -> char {
    match op {
        Operation::Add(_) => '+',
        Operation::Sub(_) => '-',
        Operation::Mul(_) => '*',
        Operation::Div(_) => '/',
    }
}

/// The operand of `op`.
pub open spec fn operando(op: Operation) -> u8 {
    match op {
        Operation::Add(x) => x,
        Operation::Sub(x) => x,
        Operation::Mul(x) => x,
        Operation::Div(x) => x,
    }
}

/// The text that asks for `op` after the code word `codigo`: the code, the operator
/// and the operand in decimal, one space between each two.
pub open spec fn texto_de_operacion(codigo: Seq<char>, op: Operation) -> Seq<char> {
    codigo + seq![' '] + seq![simbolo(op)] + seq![' '] + decimal(operando(op) as nat)
}

/// An operation written as a client writes it reads back as itself, whatever the
/// code word; a division by zero written so is refused as such.
pub proof fn ley_leer_operacion_escrita(codigo: Seq<char>, op: Operation)
    requires
        codigo.len() > 0,
        sin_espacios(codigo),
    ensures
        es_aplicable(op) ==> operacion_de(texto_de_operacion(codigo, op)) == Ok::<Operation, Seq<char>>(op),
        !es_aplicable(op) ==> operacion_de(texto_de_operacion(codigo, op)) == Err::<Operation, Seq<char>>(error_de_division()),
        palabras(texto_de_operacion(codigo, op)) == seq![codigo, seq![simbolo(op)], decimal(operando(op) as nat)],
{
    let x = operando(op);
    let d = decimal(x as nat);
    lema_decimal(x as nat);
    ley_leer_decimal(x);
    assert forall|i: int| 0 <= i < d.len() implies !es_espacio(#[trigger] d[i]) by {
        assert(0x30 <= (d[i] as u32) <= 0x39);
    }
    let s = seq![simbolo(op)];
    assert(!es_espacio(s[0]));
    lema_tres_palabras(codigo, s, d);
}

/// Subtracting what was just added, or adding what was just subtracted, gives back
/// the value: the wrap-around of one undoes that of the other.
pub proof fn ley_sumar_y_restar(v: u8, x: u8)
    ensures
        aplicar(aplicar(v, Operation::Add(x)), Operation::Sub(x)) == v,
        aplicar(aplicar(v, Operation::Sub(x)), Operation::Add(x)) == v,
{
}

impl Operation {
    /// Reads an operation from a text of three words: a code that is ignored, an
    /// operator among `+ - * /` and a byte operand.
    pub fn from_str(s: &str) -> (r: Result<Operation, &'static str>)
        ensures
            resultado_es(r, operacion_de(s@)),
            r is Ok ==> es_aplicable(r->Ok_0),
    {
        let cs = caracteres(s);
        let t = separar_palabras(&cs);
        let ghost vt = vista_palabras(t@);
        if t.len() != 3 {
            return Err("parsing error");
        }
        assert(vt[2] == t@[2]@ && vt[1] == t@[1]@);
        let operando = match leer_byte(&t[2]) {
            None => {
                return Err("parsing error");
            },
            Some(x) => x,
        };
        let operador = &t[1];
        if operador.len() != 1 {
            assert(vt[1] != seq!['/'] && vt[1] != seq!['+'] && vt[1] != seq!['-'] && vt[1] != seq!['*']);
            return Err("parsing error");
        }
        let c = operador[0];
        assert(vt[1] =~= seq![c]);
        if c == '/' && operando == 0 {
            return Err("division by zero");
        }
        if c == '+' {
            Ok(Operation::Add(operando))
        } else if c == '-' {
            Ok(Operation::Sub(operando))
        } else if c == '*' {
            Ok(Operation::Mul(operando))
        } else if c == '/' {
            Ok(Operation::Div(operando))
        } else {
            Err("parsing error")
        }
    }
}

impl core::str::FromStr for Operation {
    type Err = &'static str;

    fn from_str(s: &str) -> (r: Result<Operation, &'static str>)
        ensures
            resultado_es(r, operacion_de(s@)),
            r is Ok ==> es_aplicable(r->Ok_0),
    {
        Operation::from_str(s)
    }
}

impl View for Calculator {
    type V = u8;

    closed spec fn view(&self) -> u8 {
        self.value
    }
}

impl Default for Calculator {
    fn default() -> (c: Calculator)
        ensures
            c@ == 0,
    {
        Calculator { value: 0 }
    }
}

impl Calculator {
    /// The current value.
    pub fn value(&self) -> (v: u8)
        ensures
            v == self@,
    {
        self.value
    }

    /// Applies `op` to the current value.
    pub fn apply(&mut self, op: Operation)
        requires
            es_aplicable(op),
        ensures
            final(self)@ == aplicar(old(self)@, op),
    {
        match op {
            Operation::Add(operand) => self.value = self.value.wrapping_add(operand),
            Operation::Sub(operand) => self.value = self.value.wrapping_sub(operand),
            Operation::Mul(operand) => self.value = self.value.wrapping_mul(operand),
            Operation::Div(operand) => self.value = self.value / operand,
        }
    }
}

/// Applying an operation computes, in terms of the operands alone: the sum and the
/// product modulo 256, the difference plus 256 modulo 256, and for a non-zero
/// divisor the quotient `q` with `q * x <= v < q * x + x`.
pub proof fn ley_aritmetica(v: u8, x: u8)
    ensures
        aplicar(v, Operation::Add(x)) as int == (v as int + x as int) % 256,
        aplicar(v, Operation::Sub(x)) as int == (v as int - x as int + 256) % 256,
        aplicar(v, Operation::Mul(x)) as int == (v as int * x as int) % 256,
        x != 0 ==> {
            let q = aplicar(v, Operation::Div(x)) as int;
            q * x <= v && v < q * x + x
        },
{
    if x != 0 {
        let q = (v / x) as int;
        assert(q * x <= v && v < q * x + x) by (nonlinear_arith)
            requires
                q == v as int / x as int,
                x > 0,
                v >= 0,
        ;
    }
}

} // verus!
