use tp_individual_2::io::{
    decodificar_longitud, decodificar_texto, enviar_mensaje, recibir_mensaje, ErrorMensaje,
};

#[test]
fn io_enviar_un_mensaje_pasa() {
    let mensaje = "Soy un mensaje".to_string();
    let mut output = Vec::new();
    assert!(enviar_mensaje(&mensaje, &mut output).is_ok());
}

#[test]
fn io_enviar_un_mensaje_pasa_2() {
    let mensaje = "Soy un mensaje".to_string();
    let mut output = Vec::new();
    enviar_mensaje(&mensaje, &mut output).unwrap();
    let output = output[4..].to_vec(); //ignoro el tamaño
    let respuesta = String::from_utf8(output).expect("Not UTF-8");
    assert_eq!(mensaje, respuesta);
}

#[test]
fn io_leer_un_mensaje_pasa() {
    let contenido = "Soy un mensaje".to_string();
    let tam = (contenido.len() as u32).to_be_bytes();
    let mensaje = contenido.as_bytes();

    let mut resultado_vec = Vec::new();
    resultado_vec.extend_from_slice(&tam);
    resultado_vec.extend_from_slice(mensaje);

    let respuesta = recibir_mensaje(&mut resultado_vec).unwrap();
    assert_eq!(respuesta, contenido);
}

#[test]
fn la_cabecera_es_la_longitud_en_big_endian() {
    let mut out = Vec::new();
    enviar_mensaje(&"ñandú".to_string(), &mut out).unwrap();
    assert_eq!(&out[..4], &[0, 0, 0, 7]);
    assert_eq!(&out[4..], "ñandú".as_bytes());
}

#[test]
fn se_lee_lo_que_se_envia_en_orden() {
    let mut canal = Vec::new();
    enviar_mensaje(&"OP + 3".to_string(), &mut canal).unwrap();
    enviar_mensaje(&"".to_string(), &mut canal).unwrap();
    enviar_mensaje(&"GET".to_string(), &mut canal).unwrap();
    canal.push(9);
    assert_eq!(recibir_mensaje(&mut canal), Ok("OP + 3".to_string()));
    assert_eq!(recibir_mensaje(&mut canal), Ok("".to_string()));
    assert_eq!(recibir_mensaje(&mut canal), Ok("GET".to_string()));
    assert_eq!(canal, vec![9]);
}

#[test]
fn mensaje_incompleto_no_consume() {
    let mut corto = vec![0, 0, 1];
    assert_eq!(recibir_mensaje(&mut corto), Err(ErrorMensaje::MensajeIncompleto));
    assert_eq!(corto, vec![0, 0, 1]);
    let mut cuerpo_corto = vec![0, 0, 0, 5, b'a', b'b'];
    assert_eq!(recibir_mensaje(&mut cuerpo_corto), Err(ErrorMensaje::MensajeIncompleto));
    assert_eq!(cuerpo_corto, vec![0, 0, 0, 5, b'a', b'b']);
}

#[test]
fn utf8_invalido_consume_la_trama() {
    let mut canal = vec![0, 0, 0, 2, 0xff, 0xfe, 7];
    assert_eq!(recibir_mensaje(&mut canal), Err(ErrorMensaje::Utf8Invalido));
    assert_eq!(canal, vec![7]);
}

#[test]
fn decodifica_longitud_y_texto() {
    assert_eq!(decodificar_longitud(&[1, 2, 3, 4]), 0x01020304);
    assert_eq!(decodificar_longitud(&[0xff, 0xff, 0xff, 0xff]), u32::MAX);
    assert_eq!(decodificar_texto("hola".as_bytes()), Ok("hola".to_string()));
    assert_eq!(decodificar_texto(&[0xc3]), Err(ErrorMensaje::Utf8Invalido));
}
