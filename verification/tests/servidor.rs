use tp_individual_2::calculadora::Calculator;
use tp_individual_2::cliente::{es_confirmacion, mensaje_de_operacion, valor_informado};
use tp_individual_2::logger::LogMessage;
use tp_individual_2::servidor::{atender_mensaje, atender_operacion, Accion};

fn responder(a: &Accion) -> (String, bool) {
    match a {
        Accion::Responder { texto, es_error } => (texto.clone(), *es_error),
        Accion::Finalizar { .. } => panic!("no se esperaba el final"),
    }
}

fn final_de(a: &Accion) -> String {
    match a {
        Accion::Finalizar { texto } => texto.clone(),
        Accion::Responder { .. } => panic!("se esperaba el final"),
    }
}

#[test]
fn sesion_completa_con_palabras() {
    let mut c = Calculator::default();
    let a = atender_mensaje(&mut c, "OP + 10");
    assert_eq!(responder(&a), ("OK\n".to_string(), false));
    let a = atender_mensaje(&mut c, "OP / 0");
    assert_eq!(responder(&a), ("ERROR \"division by zero\"\n".to_string(), true));
    let a = atender_mensaje(&mut c, "OP % 2");
    assert_eq!(responder(&a), ("ERROR \"parsing error\"\n".to_string(), true));
    let a = atender_mensaje(&mut c, "   ");
    assert_eq!(responder(&a), ("ERROR \"mensaje vacío\"\n".to_string(), true));
    let a = atender_mensaje(&mut c, "HOLA");
    assert_eq!(responder(&a), ("ERROR: \"unexpected message\"\n".to_string(), true));
    assert_eq!(c.value(), 10);
    let a = atender_mensaje(&mut c, "GET extra");
    assert_eq!(final_de(&a), "VALUE 10");
    assert_eq!(c.value(), 10);
}

#[test]
fn sesion_completa_simple() {
    let mut c = Calculator::default();
    let a = atender_operacion(&mut c, "OP * 2");
    assert_eq!(responder(&a), ("OK".to_string(), false));
    let a = atender_operacion(&mut c, "OP + 200");
    assert_eq!(responder(&a), ("OK".to_string(), false));
    let a = atender_operacion(&mut c, "OP / 0");
    assert_eq!(responder(&a), ("ERROR: \"division by zero\"".to_string(), true));
    let a = atender_operacion(&mut c, "GET extra");
    assert_eq!(responder(&a), ("ERROR: \"parsing error\"".to_string(), true));
    let a = atender_operacion(&mut c, "GET");
    assert_eq!(final_de(&a), "VALUE 200");
}

#[test]
fn el_cliente_arma_y_lee_mensajes() {
    assert_eq!(mensaje_de_operacion("+ 3"), "OP + 3");
    assert!(es_confirmacion("OK"));
    assert!(!es_confirmacion("OK\n"));
    assert_eq!(valor_informado("VALUE 42"), Some("42".to_string()));
    assert_eq!(valor_informado("VALUE"), None);
}

#[test]
fn lo_que_el_cliente_envia_el_servidor_aplica() {
    let mut c = Calculator::default();
    let a = atender_mensaje(&mut c, &mensaje_de_operacion("+ 255"));
    assert_eq!(responder(&a), ("OK\n".to_string(), false));
    let a = atender_mensaje(&mut c, "GET");
    assert_eq!(valor_informado(&final_de(&a)), Some("255".to_string()));
}

#[test]
fn lineas_del_registro() {
    assert_eq!(LogMessage::Info("hola".to_string()).linea(), b"[INFO]: hola\n".to_vec());
    assert_eq!(LogMessage::Error("mal".to_string()).linea(), b"[Error]: mal\n".to_vec());
}
