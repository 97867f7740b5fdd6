use tp_individual_2::protocol::{
    enviar_mensaje, lectura_completa, recibir_linea, unir_partes,
};

#[test]
fn protocol_enviar_un_mensaje_pasa() {
    let mensaje = "Soy un mensaje".to_string();
    let mut output = Vec::new();
    assert!(enviar_mensaje(&mensaje, &mut output).is_ok());
}

#[test]
fn protocol_enviar_un_mensaje_pasa_2() {
    let mensaje = "Soy un mensaje".to_string();
    let mut output = Vec::new();
    enviar_mensaje(&mensaje, &mut output).unwrap();
    let output = output[4..].to_vec(); //ignoro el tamaño
    let respuesta = String::from_utf8(output).expect("Not UTF-8");
    assert_eq!(mensaje, respuesta.trim());
}

#[test]
fn la_linea_lleva_cabecera_texto_y_fin_de_linea() {
    let mut out = vec![1];
    enviar_mensaje(&"GET".to_string(), &mut out).unwrap();
    assert_eq!(out, vec![1, 0, 0, 0, 4, b'G', b'E', b'T', b'\n']);
}

#[test]
fn las_lineas_se_unen_hasta_la_vacia() {
    let mut partes = Vec::new();
    assert!(recibir_linea(&mut partes, "OP".to_string()));
    assert!(recibir_linea(&mut partes, "+ 3".to_string()));
    assert!(!recibir_linea(&mut partes, "".to_string()));
    assert_eq!(partes.len(), 2);
    assert_eq!(unir_partes(&partes), "OP + 3");
    assert_eq!(unir_partes(&Vec::new()), "");
}

#[test]
fn lectura_completa_mira_el_ultimo_byte() {
    let buf = [b'a', b'\n', b'b'];
    assert!(lectura_completa(&buf, 2));
    assert!(!lectura_completa(&buf, 1));
    assert!(!lectura_completa(&buf, 3));
}
