use karu::chat::{agrupar_historico, inicial_usuario, separar_linha_chat, GrupoChat, LinhaChat};
use karu::markdown::{
    blocos_markdown, classificar_linha_markdown, detectar_cerca_codigo, limpar_markdown_inline, BlocoMarkdown,
    CercaCodigo, LinhaMarkdown,
};
use karu::texto::eh_espaco_exec;

fn mensagem(l: &str) -> (String, Option<String>, String) {
    match separar_linha_chat(l) {
        LinhaChat::Mensagem { autor, hora, conteudo } => {
            (autor.to_string(), hora.map(|h| h.to_string()), conteudo.to_string())
        }
        LinhaChat::Sistema(s) => panic!("aviso inesperado: {s}"),
    }
}

fn aviso(l: &str) -> String {
    match separar_linha_chat(l) {
        LinhaChat::Sistema(s) => s.to_string(),
        LinhaChat::Mensagem { .. } => panic!("mensagem inesperada"),
    }
}

#[test]
fn linhas_de_aviso() {
    assert_eq!(aviso("[SISTEMA] conectado"), "conectado");
    assert_eq!(aviso("sem colchete"), "sem colchete");
    assert_eq!(aviso("[ana sem fecho"), "[ana sem fecho");
    assert_eq!(aviso(""), "");
    assert_eq!(aviso("[SISTEMA]sem espaco"), "[SISTEMA]sem espaco");
}

#[test]
fn linhas_de_mensagem() {
    assert_eq!(mensagem("[ana]: oi"), ("ana".into(), None, "oi".into()));
    assert_eq!(mensagem("[ana|12:30]: oi"), ("ana".into(), Some("12:30".into()), "oi".into()));
    assert_eq!(mensagem("[a|b|c]: x]: y"), ("a".into(), Some("b|c".into()), "x]: y".into()));
    assert_eq!(mensagem("[]: "), ("".into(), None, "".into()));
    assert_eq!(mensagem("[çã|ü]: é"), ("çã".into(), Some("ü".into()), "é".into()));
}

#[test]
fn a_linha_escrita_pelo_cliente_e_lida_de_volta() {
    let linha = format!("[{}|{}]: {}", "bia", "09:00", "bom dia | ]: ok");
    assert_eq!(mensagem(&linha), ("bia".into(), Some("09:00".into()), "bom dia | ]: ok".into()));
    assert_eq!(aviso(&format!("[SISTEMA] {}", "[ana]: oi")), "[ana]: oi");
}

#[test]
fn linha_com_colchete_no_autor() {
    assert_eq!(mensagem("[a]b|t]x]: m"), ("a]b".into(), Some("t]x".into()), "m".into()));
    assert_eq!(mensagem("[a]]: m"), ("a]".into(), None, "m".into()));
}

#[test]
fn inicial_de_usuario() {
    assert_eq!(inicial_usuario("ana"), "A");
    assert_eq!(inicial_usuario("  \u{3000}bia"), "B");
    assert_eq!(inicial_usuario("ßeta"), "SS");
    assert_eq!(inicial_usuario("éva"), "É");
    assert_eq!(inicial_usuario("9x"), "9");
    assert_eq!(inicial_usuario(""), "?");
    assert_eq!(inicial_usuario(" \t\n"), "?");
    assert!(["x", "\u{1F600}", "ǆ", "ﬀ"].iter().all(|s| !inicial_usuario(s).is_empty()));
}

#[test]
fn espacos_como_a_std() {
    for u in 0u32..0x3100 {
        if let Some(c) = char::from_u32(u) {
            assert_eq!(eh_espaco_exec(c), c.is_whitespace(), "{u:#x}");
        }
    }
    assert!(!eh_espaco_exec('\u{10FFFF}'));
}

fn grupos(h: &[&str]) -> Vec<String> {
    let h: Vec<String> = h.iter().map(|s| s.to_string()).collect();
    agrupar_historico(&h)
        .into_iter()
        .map(|g| match g {
            GrupoChat::Sistema(s) => format!("!{s}"),
            GrupoChat::Mensagens { autor, hora, conteudos } => {
                format!("{}@{}:{}", autor, hora.unwrap_or("-".into()), conteudos.join("/"))
            }
        })
        .collect()
}

#[test]
fn agrupa_mensagens_seguidas_do_mesmo_autor() {
    assert_eq!(
        grupos(&["[ana|1]: a", "[ana|2]: b", "[bia]: c", "[SISTEMA] x", "[bia]: d", "[bia|3]: e", "solto"]),
        vec!["ana@1:a/b", "bia@-:c", "!x", "bia@-:d/e", "!solto"]
    );
    assert_eq!(grupos(&[]), Vec::<String>::new());
}

#[test]
fn limpa_marcas_inline() {
    assert_eq!(limpar_markdown_inline("**negrito** e __sub__ e *it* `code`"), "negrito e sub e it code");
    assert_eq!(limpar_markdown_inline("a___b"), "a_b");
    assert_eq!(limpar_markdown_inline("_`_"), "__");
    assert_eq!(limpar_markdown_inline("_**_"), "");
    assert_eq!(limpar_markdown_inline("***"), "");
    assert_eq!(limpar_markdown_inline(""), "");
}

#[test]
fn cercas_de_codigo() {
    assert!(matches!(detectar_cerca_codigo("  ```rust"), Some((CercaCodigo::Crases, r)) if r == "rust"));
    assert!(matches!(detectar_cerca_codigo("'''x'''"), Some((CercaCodigo::Aspas, r)) if r == "x'''"));
    assert!(detectar_cerca_codigo("``").is_none());
    assert!(detectar_cerca_codigo("a```").is_none());
    assert_eq!(CercaCodigo::Crases.texto(), "```");
    assert_eq!(CercaCodigo::Aspas.texto(), "'''");
}

fn linha(l: &str) -> String {
    match classificar_linha_markdown(l) {
        LinhaMarkdown::Titulo3(t) => format!("h3:{t}"),
        LinhaMarkdown::Titulo2(t) => format!("h2:{t}"),
        LinhaMarkdown::Titulo1(t) => format!("h1:{t}"),
        LinhaMarkdown::Citacao(t) => format!("q:{t}"),
        LinhaMarkdown::Item(t) => format!("li:{t}"),
        LinhaMarkdown::ItemNumerado(n, t) => format!("ol{n}:{t}"),
        LinhaMarkdown::Texto(t) => format!("p:{t}"),
    }
}

#[test]
fn classifica_linhas() {
    assert_eq!(linha("  ### **Tit**  "), "h3:Tit");
    assert_eq!(linha("## b"), "h2:b");
    assert_eq!(linha("# c"), "h1:c");
    assert_eq!(linha("#c"), "p:#c");
    assert_eq!(linha("> cit"), "q:cit");
    assert_eq!(linha("- item"), "li:item");
    assert_eq!(linha("* item"), "li:item");
    assert_eq!(linha("12. doze"), "ol12:doze");
    assert_eq!(linha(". nada"), "ol:nada");
    assert_eq!(linha("1a. x"), "p:1a. x");
    assert_eq!(linha("texto `x`"), "p:texto x");
    assert_eq!(linha(""), "p:");
}

fn blocos(s: &str) -> Vec<String> {
    blocos_markdown(s)
        .into_iter()
        .map(|b| match b {
            BlocoMarkdown::Codigo(c) => format!("code[{c}]"),
            BlocoMarkdown::Espaco => "vazio".to_string(),
            BlocoMarkdown::Linha(l) => match l {
                LinhaMarkdown::Texto(t) => format!("p:{t}"),
                LinhaMarkdown::Titulo1(t) => format!("h1:{t}"),
                _ => "outra".to_string(),
            },
        })
        .collect()
}

#[test]
fn blocos_de_mensagem() {
    assert_eq!(blocos(""), vec!["p:"]);
    assert_eq!(blocos("oi\n\n# t"), vec!["p:oi", "vazio", "h1:t"]);
    assert_eq!(blocos("a\r\nb\n"), vec!["p:a", "p:b"]);
    assert_eq!(blocos("```\nx\n\ny\n```\nfim"), vec!["code[x\n\ny]", "p:fim"]);
    assert_eq!(blocos("```\n\nx\n```"), vec!["code[x]"]);
    assert_eq!(blocos("``` inline ```"), vec!["code[inline]"]);
    assert_eq!(blocos("'''py\nx\n'''"), vec!["code[py\nx]"]);
    assert_eq!(blocos("```py\nx\n```"), vec!["code[x]"]);
    assert_eq!(blocos("```\na\n'''\nb"), vec!["code[a\n'''\nb]"]);
    assert_eq!(blocos("\n"), vec!["vazio"]);
    assert_eq!(blocos("a\r"), vec!["p:a"]);
}

#[test]
fn linhas_como_a_std() {
    for s in ["", "a", "a\n", "a\r\n", "a\r", "\n\n", "\r\n\r\n", "x\ny\r\nz", "a\rb\n"] {
        let esperado: Vec<&str> = s.lines().collect();
        let obtidos = blocos_markdown(&s.replace('#', ""));
        if esperado.is_empty() {
            assert_eq!(obtidos.len(), 1);
        } else {
            assert_eq!(obtidos.len(), esperado.len(), "{s:?}");
        }
    }
}

#[test]
fn agrupar_nao_perde_linhas() {
    let h: Vec<String> = ["[a]: 1", "[a]: 2", "x", "[b|t]: 3", "[b]: 4", "[a]: 5", "[SISTEMA] y"]
        .iter()
        .map(|s| s.to_string())
        .collect();
    let total: usize = agrupar_historico(&h)
        .iter()
        .map(|g| match g {
            GrupoChat::Sistema(_) => 1,
            GrupoChat::Mensagens { conteudos, .. } => conteudos.len(),
        })
        .sum();
    assert_eq!(total, h.len());
}
