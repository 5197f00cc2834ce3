use karu::conexao::{falha_ao_conectar, reagir_quadro, QuadroWs, ReacaoQuadro};
use karu::estado::{endereco_servidor, Comando, Karu, Message, SubTelaAuth, TelaAtual, LIMITE_HISTORICO_LOCAL};
use karu::protocolo::{ChatProtocol, UserProfile};

fn cliente() -> Karu {
    Karu::new(Some("ws://localhost:8765".to_string()))
}

fn conectado() -> Karu {
    let mut k = cliente();
    k.update(Message::ConexaoPronta(true));
    k
}

fn sem_efeito(c: &Comando) -> bool {
    c.enviar.is_none() && !c.autenticacao && !c.rolar && c.ler_pfp.is_none() && c.avatares.is_empty()
}

fn pfp(k: &Karu, u: &str) -> Option<String> {
    k.pfps.iter().rev().find(|(n, _)| n == u).map(|(_, p)| p.clone())
}

#[test]
fn estado_inicial() {
    let k = cliente();
    assert_eq!(k.tela, TelaAtual::Autenticacao(SubTelaAuth::Login));
    assert_eq!(k.status_conexao, "conectando ws");
    assert_eq!(k.canais, vec!["geral", "dev", "ajuda"]);
    assert_eq!(k.canal_atual, "geral");
    assert!(!k.conectado);
    assert_eq!(k.title(), "Karu - Autenticação Segura");
}

#[test]
fn endereco_do_servidor() {
    assert_eq!(endereco_servidor(None), "ws://localhost:8765");
    assert_eq!(endereco_servidor(Some("wss://karu.example".into())), "wss://karu.example");
    assert_eq!(Karu::new(None).ws_url, "ws://localhost:8765");
    assert_eq!(Karu::new(Some("wss://x".into())).ws_url, "wss://x");
}

#[test]
fn status_de_sucesso() {
    let mut k = cliente();
    assert!(!k.status_de_sucesso());
    k.update(Message::SubTelaAlterada(SubTelaAuth::Cadastro));
    k.update(Message::MensagemRecebida(Some(ChatProtocol::AuthResponse { success: true, msg: String::new() })));
    assert!(k.status_de_sucesso());
    k.update(Message::ConexaoFalhou("Conta criad".into()));
    assert!(!k.status_de_sucesso());
}

#[test]
fn titulo_no_chat() {
    let mut k = cliente();
    k.tela = TelaAtual::Chat;
    k.username = "ana".into();
    assert_eq!(k.title(), "Karu - [#geral] como ana");
}

#[test]
fn campos_do_formulario() {
    let mut k = cliente();
    k.status_erro = "x".into();
    assert!(sem_efeito(&k.update(Message::SubTelaAlterada(SubTelaAuth::Cadastro))));
    assert_eq!(k.tela, TelaAtual::Autenticacao(SubTelaAuth::Cadastro));
    assert_eq!(k.status_erro, "");
    k.update(Message::UsernameAlterado("ana".into()));
    k.update(Message::EmailAlterado("a@b".into()));
    k.update(Message::PasswordAlterado("segredo".into()));
    k.update(Message::InputAlterado("oi".into()));
    assert_eq!(k.input_username, "ana");
    assert_eq!(k.input_email, "a@b");
    assert_eq!(k.input_password.0, "segredo");
    assert_eq!(k.input_value, "oi");
}

#[test]
fn submeter_exige_campos_e_conexao() {
    let mut k = cliente();
    let c = k.update(Message::SubmeterAutenticacao);
    assert!(sem_efeito(&c));
    assert_eq!(k.status_erro, "Preencha os campos obrigatórios!");
    k.update(Message::UsernameAlterado("ana".into()));
    k.update(Message::PasswordAlterado("s".into()));
    let c = k.update(Message::SubmeterAutenticacao);
    assert!(sem_efeito(&c));
    assert_eq!(k.status_erro, "Sem conexão WebSocket em ws://localhost:8765");
}

#[test]
fn submeter_login_e_cadastro() {
    let mut k = conectado();
    k.update(Message::UsernameAlterado("ana".into()));
    k.update(Message::PasswordAlterado("s".into()));
    let c = k.update(Message::SubmeterAutenticacao);
    assert!(c.autenticacao && !c.rolar);
    assert!(matches!(c.enviar, Some(ChatProtocol::Login { ref username, ref password }) if username == "ana" && password.0 == "s"));
    k.update(Message::SubTelaAlterada(SubTelaAuth::Cadastro));
    let c = k.update(Message::SubmeterAutenticacao);
    assert!(sem_efeito(&c));
    assert_eq!(k.status_erro, "E-mail é obrigatório!");
    k.update(Message::EmailAlterado("a@b".into()));
    let c = k.update(Message::SubmeterAutenticacao);
    assert!(matches!(c.enviar, Some(ChatProtocol::Register { ref username, ref email, .. }) if username == "ana" && email == "a@b"));
    assert!(c.autenticacao);
}

#[test]
fn falha_ao_enviar_autenticacao() {
    let mut k = conectado();
    k.input_value = "x".into();
    let c = k.update(Message::EnvioConcluido { autenticacao: true, erro: Some("caiu".into()) });
    assert!(sem_efeito(&c));
    assert!(!k.conectado);
    assert_eq!(k.status_conexao, "ws falhou");
    assert_eq!(k.status_erro, "Falha ao enviar auth: caiu");
    assert_eq!(k.input_value, "x");
    k.update(Message::EnvioConcluido { autenticacao: false, erro: Some("caiu".into()) });
    assert_eq!(k.input_value, "");
}

#[test]
fn enviar_mensagem_de_chat() {
    let mut k = conectado();
    k.username = "ana".into();
    assert!(sem_efeito(&k.update(Message::EnviarMensagem)));
    k.update(Message::InputAlterado("olá".into()));
    let c = k.update(Message::EnviarMensagem);
    assert!(c.rolar && !c.autenticacao);
    assert!(matches!(c.enviar, Some(ChatProtocol::Chat { ref user, ref msg, pfp: None, time: None }) if user == "ana" && msg == "olá"));
    assert_eq!(k.input_value, "");
}

#[test]
fn enviar_sem_conexao_nao_faz_nada() {
    let mut k = cliente();
    k.update(Message::InputAlterado("olá".into()));
    assert!(sem_efeito(&k.update(Message::EnviarMensagem)));
    assert_eq!(k.input_value, "olá");
}

#[test]
fn comando_pfp() {
    let mut k = conectado();
    k.username = "ana".into();
    k.update(Message::InputAlterado("  /pfp  eu.png  ".into()));
    let c = k.update(Message::EnviarMensagem);
    assert_eq!(c.ler_pfp, Some("eu.png".to_string()));
    assert!(c.enviar.is_none());
    let c = k.update(Message::PfpLida("eu.png".into(), Ok(vec![1, 2, 3])));
    let url = "data:image/png;base64,AQID".to_string();
    assert!(matches!(c.enviar, Some(ChatProtocol::PfpUpdate { ref pfp }) if *pfp == url));
    assert_eq!(c.avatares, vec![("ana".to_string(), url.clone())]);
    assert_eq!(pfp(&k, "ana"), Some(url));
    assert_eq!(k.historico_chat, vec!["[SISTEMA] PFP atualizada e enviada ao servidor."]);
    assert_eq!(k.input_value, "");
}

#[test]
fn comando_pfp_que_nao_e_imagem() {
    let mut k = conectado();
    k.update(Message::InputAlterado("/pfp eu.gif".into()));
    let c = k.update(Message::EnviarMensagem);
    assert!(sem_efeito(&c));
    assert_eq!(k.historico_chat, vec!["[SISTEMA] Use uma imagem .png, .jpg, .jpeg ou .webp para a PFP."]);
    assert_eq!(k.input_value, "");
    // Without a connection the notice is the same.
    let mut k = cliente();
    k.update(Message::InputAlterado("/pfp /dev/zero".into()));
    let c = k.update(Message::EnviarMensagem);
    assert!(c.ler_pfp.is_none());
    assert_eq!(k.historico_chat, vec!["[SISTEMA] Use uma imagem .png, .jpg, .jpeg ou .webp para a PFP."]);
}

#[test]
fn comando_pfp_com_erro_de_leitura() {
    let mut k = conectado();
    k.update(Message::InputAlterado("/pfp eu.png".into()));
    let c = k.update(Message::PfpLida("eu.png".into(), Err("arquivo sumiu".into())));
    assert!(sem_efeito(&c));
    assert_eq!(k.historico_chat, vec!["[SISTEMA] Não consegui ler a imagem: arquivo sumiu"]);
    assert_eq!(k.input_value, "");
}

#[test]
fn comando_pfp_sem_conexao() {
    let mut k = cliente();
    k.update(Message::InputAlterado("/pfp eu.png".into()));
    let c = k.update(Message::PfpLida("eu.png".into(), Ok(vec![1])));
    assert!(sem_efeito(&c));
    assert!(k.historico_chat.is_empty());
    assert_eq!(k.input_value, "/pfp eu.png");
}

#[test]
fn eventos_de_conexao() {
    let mut k = cliente();
    k.update(Message::ConexaoPronta(true));
    assert!(k.conectado);
    assert_eq!(k.status_conexao, "ws conectado");
    k.update(Message::ConexaoPronta(false));
    assert!(!k.conectado);
    assert_eq!(k.status_conexao, "ws offline");
    k.update(Message::ConexaoPronta(true));
    k.update(Message::ConexaoFalhou("boom".into()));
    assert!(!k.conectado);
    assert_eq!(k.status_conexao, "ws falhou");
    assert_eq!(k.status_erro, "boom");
    k.update(Message::ConexaoEncerrada("fim".into()));
    assert_eq!(k.status_conexao, "ws desconectado");
    assert_eq!(k.status_erro, "fim");
    k.tela = TelaAtual::Chat;
    k.update(Message::ConexaoEncerrada("caiu".into()));
    assert_eq!(k.historico_chat, vec!["[SISTEMA] caiu"]);
}

#[test]
fn resposta_de_autenticacao() {
    let mut k = conectado();
    k.update(Message::UsernameAlterado("ana".into()));
    k.historico_chat.push("velha".into());
    k.update(Message::MensagemRecebida(Some(ChatProtocol::AuthResponse { success: false, msg: "senha errada".into() })));
    assert_eq!(k.status_erro, "senha errada");
    k.update(Message::MensagemRecebida(Some(ChatProtocol::AuthResponse { success: true, msg: String::new() })));
    assert_eq!(k.tela, TelaAtual::Chat);
    assert_eq!(k.username, "ana");
    assert!(k.historico_chat.is_empty());
    assert_eq!(k.status_erro, "");
    let mut k = conectado();
    k.update(Message::SubTelaAlterada(SubTelaAuth::Cadastro));
    k.update(Message::MensagemRecebida(Some(ChatProtocol::AuthResponse { success: true, msg: String::new() })));
    assert_eq!(k.tela, TelaAtual::Autenticacao(SubTelaAuth::Login));
    assert_eq!(k.status_erro, "Conta criada! Faça login.");
}

#[test]
fn mensagens_de_chat_recebidas() {
    let mut k = conectado();
    let c = k.update(Message::MensagemRecebida(Some(ChatProtocol::Chat {
        user: "bia".into(),
        msg: "oi".into(),
        pfp: Some("data:image/png;base64,AA==".into()),
        time: Some("10:00".into()),
    })));
    assert!(c.rolar);
    assert_eq!(c.avatares, vec![("bia".to_string(), "data:image/png;base64,AA==".to_string())]);
    assert_eq!(k.historico_chat, vec!["[bia|10:00]: oi"]);
    assert_eq!(pfp(&k, "bia"), Some("data:image/png;base64,AA==".to_string()));
    // Same avatar again: nothing to render anew.
    let c = k.update(Message::MensagemRecebida(Some(ChatProtocol::Chat {
        user: "bia".into(),
        msg: "de novo".into(),
        pfp: Some("data:image/png;base64,AA==".into()),
        time: None,
    })));
    assert!(c.avatares.is_empty());
    assert_eq!(k.historico_chat[1], "[bia]: de novo");
    k.update(Message::MensagemRecebida(Some(ChatProtocol::System { msg: "aviso".into() })));
    assert_eq!(k.historico_chat[2], "[SISTEMA] aviso");
}

#[test]
fn lista_de_usuarios() {
    let mut k = conectado();
    let users = vec![
        UserProfile { username: "a".into(), pfp: Some("p1".into()) },
        UserProfile { username: "b".into(), pfp: None },
        UserProfile { username: "a".into(), pfp: Some("p2".into()) },
        UserProfile { username: "a".into(), pfp: Some("p2".into()) },
    ];
    let c = k.update(Message::MensagemRecebida(Some(ChatProtocol::UserList { users })));
    assert!(!c.rolar);
    assert_eq!(c.avatares, vec![("a".to_string(), "p1".to_string()), ("a".to_string(), "p2".to_string())]);
    assert_eq!(pfp(&k, "a"), Some("p2".to_string()));
    assert_eq!(pfp(&k, "b"), None);
    assert_eq!(k.usuarios_online.len(), 4);
}

#[test]
fn historico_limitado() {
    let mut k = conectado();
    for i in 0..100 {
        k.historico_chat.push(format!("l{i}"));
    }
    let c = k.update(Message::MensagemRecebida(None));
    assert!(sem_efeito(&c));
    assert_eq!(k.historico_chat.len(), 100);
    k.update(Message::MensagemRecebida(Some(ChatProtocol::JoinChannel { channel: "x".into() })));
    assert_eq!(k.historico_chat.len(), LIMITE_HISTORICO_LOCAL);
    assert_eq!(k.historico_chat[0], "l20");
    k.update(Message::MensagemRecebida(Some(ChatProtocol::System { msg: "n".into() })));
    assert_eq!(k.historico_chat.len(), LIMITE_HISTORICO_LOCAL);
    assert_eq!(k.historico_chat[0], "l21");
    assert_eq!(k.historico_chat[79], "[SISTEMA] n");
}

#[test]
fn mudar_de_canal() {
    let mut k = conectado();
    k.historico_chat.push("x".into());
    let c = k.update(Message::MudarCanal("dev".into()));
    assert_eq!(k.canal_atual, "dev");
    assert!(k.historico_chat.is_empty());
    assert!(matches!(c.enviar, Some(ChatProtocol::JoinChannel { ref channel }) if channel == "dev"));
    let mut k = cliente();
    let c = k.update(Message::MudarCanal("ajuda".into()));
    assert!(c.enviar.is_none());
    assert_eq!(k.canal_atual, "ajuda");
}

#[test]
fn quadros_do_websocket() {
    assert!(matches!(reagir_quadro(QuadroWs::Texto("{}".into())), ReacaoQuadro::Entregar(t) if t == "{}"));
    assert!(matches!(reagir_quadro(QuadroWs::Fechamento(Some("tchau".into()))), ReacaoQuadro::Encerrar(m) if m == "tchau"));
    assert!(matches!(reagir_quadro(QuadroWs::Fechamento(Some(String::new()))), ReacaoQuadro::Encerrar(m) if m == "servidor fechou o websocket"));
    assert!(matches!(reagir_quadro(QuadroWs::Fechamento(None)), ReacaoQuadro::Encerrar(m) if m == "servidor fechou o websocket"));
    assert!(matches!(reagir_quadro(QuadroWs::Outro), ReacaoQuadro::Ignorar));
    assert!(matches!(reagir_quadro(QuadroWs::Erro("reset".into())), ReacaoQuadro::Encerrar(m) if m == "WebSocket caiu: reset"));
    assert_eq!(falha_ao_conectar("ws://x", "recusado"), "Não conectou em ws://x: recusado");
}
