use karu::base64::{base64_decode, base64_encode, valor_base64};
use karu::dados::{
    caminho_pfp, candidatos_pfp, decodificar_data_url_imagem, imagem_para_data_url, mime_de_extensao,
    mime_imagem, LIMITE_PFP,
};

#[test]
fn codifica_exemplos_da_rfc() {
    assert_eq!(base64_encode(b""), "");
    assert_eq!(base64_encode(b"f"), "Zg==");
    assert_eq!(base64_encode(b"fo"), "Zm8=");
    assert_eq!(base64_encode(b"foo"), "Zm9v");
    assert_eq!(base64_encode(b"foob"), "Zm9vYg==");
    assert_eq!(base64_encode(b"fooba"), "Zm9vYmE=");
    assert_eq!(base64_encode(b"foobar"), "Zm9vYmFy");
    assert_eq!(base64_encode(&[0xff, 0xfe, 0xfd]), "//79");
    assert_eq!(base64_encode(&[0xfb, 0xef]), "++8=");
}

#[test]
fn decodifica_exemplos_da_rfc() {
    assert_eq!(base64_decode("Zm9vYmFy"), Some(b"foobar".to_vec()));
    assert_eq!(base64_decode("Zm9vYg=="), Some(b"foob".to_vec()));
    assert_eq!(base64_decode("Zm9vYmE="), Some(b"fooba".to_vec()));
    assert_eq!(base64_decode(""), Some(vec![]));
    assert_eq!(base64_decode("//79"), Some(vec![0xff, 0xfe, 0xfd]));
}

#[test]
fn decodificar_ignora_espacos_ascii() {
    assert_eq!(base64_decode(" Zm9v\n YmFy\r\n\t"), Some(b"foobar".to_vec()));
    assert_eq!(base64_decode("Zm\x0c9v"), Some(b"foo".to_vec()));
}

#[test]
fn decodificar_recusa_tamanho_e_simbolos_invalidos() {
    assert_eq!(base64_decode("Zm9"), None);
    assert_eq!(base64_decode("Zm9v!"), None);
    assert_eq!(base64_decode("Zm!v"), None);
    assert_eq!(base64_decode("=m9v"), None);
    assert_eq!(base64_decode("Z=9v"), None);
    assert_eq!(base64_decode("éAA"), None);
}

#[test]
fn decodificar_aceita_preenchimento_em_qualquer_bloco() {
    // A `=` in the third place drops the second byte of the group only.
    assert_eq!(base64_decode("QU=B"), Some(vec![0x41, 0x01]));
    assert_eq!(base64_decode("QQ==QQ=="), Some(vec![0x41, 0x41]));
}

#[test]
fn ida_e_volta_em_todos_os_tamanhos() {
    for n in 0..70usize {
        let bytes: Vec<u8> = (0..n).map(|i| (i * 37 + 11) as u8).collect();
        let texto = base64_encode(&bytes);
        assert_eq!(texto.len(), 4 * ((n + 2) / 3));
        assert!(texto.is_ascii());
        assert_eq!(base64_decode(&texto), Some(bytes));
    }
}

#[test]
fn valores_do_alfabeto() {
    assert_eq!(valor_base64(b'A'), Some(0));
    assert_eq!(valor_base64(b'Z'), Some(25));
    assert_eq!(valor_base64(b'a'), Some(26));
    assert_eq!(valor_base64(b'z'), Some(51));
    assert_eq!(valor_base64(b'0'), Some(52));
    assert_eq!(valor_base64(b'9'), Some(61));
    assert_eq!(valor_base64(b'+'), Some(62));
    assert_eq!(valor_base64(b'/'), Some(63));
    assert_eq!(valor_base64(b'='), None);
    assert_eq!(valor_base64(b'-'), None);
    assert_eq!(valor_base64(200), None);
}

#[test]
fn tipos_de_imagem_pela_extensao() {
    assert_eq!(mime_imagem("foto.png"), Some("image/png"));
    assert_eq!(mime_imagem("pasta/foto.PNG"), Some("image/png"));
    assert_eq!(mime_imagem("a.jpg"), Some("image/jpeg"));
    assert_eq!(mime_imagem("a.JpEg"), Some("image/jpeg"));
    assert_eq!(mime_imagem("a.webp"), Some("image/webp"));
    assert_eq!(mime_imagem("a.gif"), None);
    assert_eq!(mime_imagem("png"), None);
    assert_eq!(mime_imagem(".png"), None);
    assert_eq!(mime_imagem("a.tar.png"), Some("image/png"));
    assert_eq!(mime_imagem(""), None);
}

#[test]
fn tipo_pela_extensao_lida() {
    assert_eq!(mime_de_extensao(Some("PNG")), Some("image/png"));
    assert_eq!(mime_de_extensao(Some("jpeg")), Some("image/jpeg"));
    assert_eq!(mime_de_extensao(Some("WEBP")), Some("image/webp"));
    assert_eq!(mime_de_extensao(Some("bmp")), None);
    assert_eq!(mime_de_extensao(None), None);
}

#[test]
fn candidatos_de_avatar() {
    assert_eq!(
        candidatos_pfp("  ana "),
        vec!["pfps/ana.png", "pfps/ana.jpg", "pfps/ana.jpeg", "pfps/ana.webp"]
    );
    assert_eq!(candidatos_pfp(" \t "), Vec::<String>::new());
    assert_eq!(
        candidatos_pfp("/tmp/x"),
        vec!["/tmp/x.png", "/tmp/x.jpg", "/tmp/x.jpeg", "/tmp/x.webp"]
    );
}

#[test]
fn caminho_de_avatar_e_o_primeiro_presente() {
    let presentes = vec!["pfps/ana.webp".to_string(), "pfps/ana.jpg".to_string()];
    assert_eq!(caminho_pfp("ana", &presentes), Some("pfps/ana.jpg".to_string()));
    assert_eq!(caminho_pfp("bia", &presentes), None);
    assert_eq!(caminho_pfp("   ", &presentes), None);
}

#[test]
fn data_url_de_imagem() {
    let bytes = vec![1u8, 2, 3, 250];
    let url = imagem_para_data_url("x.png", Ok(bytes.clone())).unwrap();
    assert_eq!(url, "data:image/png;base64,AQID+g==");
    assert_eq!(decodificar_data_url_imagem(&url), Some(bytes));
}

#[test]
fn data_url_erros() {
    assert_eq!(
        imagem_para_data_url("x.gif", Ok(vec![1])),
        Err("Use uma imagem .png, .jpg, .jpeg ou .webp para a PFP.".to_string())
    );
    assert_eq!(
        imagem_para_data_url("x.jpg", Err("sem acesso".to_string())),
        Err("Não consegui ler a imagem: sem acesso".to_string())
    );
    assert_eq!(
        imagem_para_data_url("x.webp", Ok(vec![0; LIMITE_PFP + 1])),
        Err("A imagem é grande demais. Use uma PFP com até 1 MB.".to_string())
    );
    assert!(imagem_para_data_url("x.webp", Ok(vec![0; LIMITE_PFP])).is_ok());
    // The extension is checked before what the read gave.
    assert_eq!(
        imagem_para_data_url("x.txt", Err("sem acesso".to_string())),
        Err("Use uma imagem .png, .jpg, .jpeg ou .webp para a PFP.".to_string())
    );
}

#[test]
fn decodificar_data_url_recusa_cabecalhos() {
    assert_eq!(decodificar_data_url_imagem("data:image/png;base64,Zm9v"), Some(b"foo".to_vec()));
    assert_eq!(decodificar_data_url_imagem("data:text/plain;base64,Zm9v"), None);
    assert_eq!(decodificar_data_url_imagem("data:image/png,Zm9v"), None);
    assert_eq!(decodificar_data_url_imagem("data:image/png;base64"), None);
    assert_eq!(decodificar_data_url_imagem("data:image/png;base64,Zm9"), None);
    assert_eq!(decodificar_data_url_imagem("data:image/;base64,,,,"), None);
    assert_eq!(decodificar_data_url_imagem("data:image/x;base64,"), Some(vec![]));
}

#[test]
fn espacos_em_qualquer_lugar_nao_mudam_nada() {
    let com = " Z m\t9v\nYm E=\r ";
    let sem: String = com.chars().filter(|c| !c.is_ascii_whitespace()).collect();
    assert_eq!(base64_decode(com), base64_decode(&sem));
    assert_eq!(base64_decode(com), Some(b"fooba".to_vec()));
}

#[test]
fn tamanho_do_decodificado() {
    // Two groups and three `=` in third or fourth places: 6 - 3 bytes.
    let texto = "QU=BQQ==";
    assert_eq!(base64_decode(texto).map(|v| v.len()), Some(6 - 3));
    assert_eq!(base64_decode("QUJD").map(|v| v.len()), Some(3));
    assert_eq!(base64_decode("QUI=").map(|v| v.len()), Some(2));
}
