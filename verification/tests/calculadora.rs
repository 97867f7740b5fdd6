use tp_individual_2::calculadora::{Calculator, Operation};

#[test]
fn operacion_suma_funciona() {
    let mut calculadora = Calculator::default();
    let operation = Operation::from_str(&"OP + 3".to_string()).unwrap();
    calculadora.apply(operation);
    assert_eq!(calculadora.value(), 3);
}

#[test]
fn operacion_resta_funciona() {
    let mut calculadora = Calculator::default();
    let suma = Operation::from_str(&"OP + 3".to_string()).unwrap();
    let resta = Operation::from_str(&"OP - 2".to_string()).unwrap();
    calculadora.apply(suma);
    calculadora.apply(resta);
    assert_eq!(calculadora.value(), 1);
}

#[test]
fn operacion_multiplicacion_funciona() {
    let mut calculadora = Calculator::default();
    let suma = Operation::from_str(&"OP + 3".to_string()).unwrap();
    let multiplicacion = Operation::from_str(&"OP * 2".to_string()).unwrap();
    calculadora.apply(suma);
    calculadora.apply(multiplicacion);
    assert_eq!(calculadora.value(), 6);
}

#[test]
fn operacion_division_funciona() {
    let mut calculadora = Calculator::default();
    let suma = Operation::from_str(&"OP + 10".to_string()).unwrap();
    let division = Operation::from_str(&"OP / 2".to_string()).unwrap();
    calculadora.apply(suma);
    calculadora.apply(division);
    assert_eq!(calculadora.value(), 5);
}

#[test]
fn dividir_por_cero_da_error() {
    assert!(Operation::from_str(&"OP / 0".to_string()).is_err());
}

#[test]
fn calculadora_nueva_vale_cero() {
    assert_eq!(Calculator::default().value(), 0);
}

#[test]
fn suma_da_la_vuelta_en_256() {
    let mut c = Calculator::default();
    c.apply(Operation::Add(250));
    c.apply(Operation::Add(10));
    assert_eq!(c.value(), 4);
}

#[test]
fn resta_da_la_vuelta_bajo_cero() {
    let mut c = Calculator::default();
    c.apply(Operation::Add(3));
    c.apply(Operation::Sub(5));
    assert_eq!(c.value(), 254);
}

#[test]
fn multiplicacion_da_la_vuelta() {
    let mut c = Calculator::default();
    c.apply(Operation::Add(20));
    c.apply(Operation::Mul(13));
    assert_eq!(c.value(), 4);
}

#[test]
fn division_trunca() {
    let mut c = Calculator::default();
    c.apply(Operation::Add(10));
    c.apply(Operation::Div(3));
    assert_eq!(c.value(), 3);
}

#[test]
fn sumar_y_restar_deja_el_valor() {
    for v in [0u8, 1, 100, 200, 255] {
        for x in [0u8, 7, 128, 255] {
            let mut c = Calculator::default();
            c.apply(Operation::Add(v));
            c.apply(Operation::Add(x));
            c.apply(Operation::Sub(x));
            assert_eq!(c.value(), v);
            c.apply(Operation::Sub(x));
            c.apply(Operation::Add(x));
            assert_eq!(c.value(), v);
        }
    }
}

#[test]
fn lee_las_cuatro_operaciones() {
    assert_eq!(Operation::from_str("OP + 3"), Ok(Operation::Add(3)));
    assert_eq!(Operation::from_str("OP - 3"), Ok(Operation::Sub(3)));
    assert_eq!(Operation::from_str("OP * 3"), Ok(Operation::Mul(3)));
    assert_eq!(Operation::from_str("OP / 3"), Ok(Operation::Div(3)));
}

#[test]
fn el_codigo_se_ignora() {
    assert_eq!(Operation::from_str("XYZ + 9"), Ok(Operation::Add(9)));
}

#[test]
fn operando_con_signo_y_ceros() {
    assert_eq!(Operation::from_str("OP + +7"), Ok(Operation::Add(7)));
    assert_eq!(Operation::from_str("OP * 007"), Ok(Operation::Mul(7)));
    assert_eq!(Operation::from_str("OP + 255"), Ok(Operation::Add(255)));
}

#[test]
fn espacios_de_todo_tipo_separan() {
    assert_eq!(Operation::from_str("  OP\t-\u{3000}12 \n"), Ok(Operation::Sub(12)));
}

#[test]
fn errores_de_lectura() {
    assert_eq!(Operation::from_str("OP + 256"), Err("parsing error"));
    assert_eq!(Operation::from_str("OP + -1"), Err("parsing error"));
    assert_eq!(Operation::from_str("OP + +"), Err("parsing error"));
    assert_eq!(Operation::from_str("OP % 3"), Err("parsing error"));
    assert_eq!(Operation::from_str("OP ++ 3"), Err("parsing error"));
    assert_eq!(Operation::from_str("OP + 3 4"), Err("parsing error"));
    assert_eq!(Operation::from_str("OP +"), Err("parsing error"));
    assert_eq!(Operation::from_str(""), Err("parsing error"));
    assert_eq!(Operation::from_str("OP + x"), Err("parsing error"));
}

#[test]
fn division_por_cero_es_su_propio_error() {
    assert_eq!(Operation::from_str("OP / 0"), Err("division by zero"));
    assert_eq!(Operation::from_str("OP / 000"), Err("division by zero"));
    assert_eq!(Operation::from_str("OP % 0"), Err("parsing error"));
}

#[test]
fn from_str_del_rasgo_coincide() {
    let op: Operation = "OP * 4".parse().unwrap();
    assert_eq!(op, Operation::Mul(4));
}
