use vstd::prelude::*;
use crate::chat::{vista_strings, vista_opcao};
use crate::dados;
use crate::dados::imagem_para_data_url;
use crate::pfps::{mapa_pfps, pfp_de, gravar_pfp};
use crate::protocolo::{ChatProtocol, Password, UserProfile};
use crate::texto;
use crate::texto::{chars_de, aparar_vec, sem_prefixo_exec, string_de};
use vstd::string::StringExecFns;

verus! {

broadcast use vstd::string::group_string_axioms;

/// The two forms of the authentication screen.
#[derive(Clone, Copy, Debug, PartialEq, Eq, Structural)]
pub enum SubTelaAuth {
    Login,
    Cadastro,
}

/// The screen the client shows.
#[derive(Clone, Copy, Debug, PartialEq, Eq, Structural)]
pub enum TelaAtual {
    Autenticacao(SubTelaAuth),
    Chat,
}

/// The most history lines kept after a server message.
pub const LIMITE_HISTORICO_LOCAL: usize = 80;

/// The state of the chat client.
pub struct Karu {
    pub tela: TelaAtual,
    pub username: String,
    pub input_username: String,
    pub input_email: String,
    pub input_password: Password,
    pub status_erro: String,
    pub status_conexao: String,
    pub ws_url: String,
    pub input_value: String,
    pub historico_chat: Vec<String>,
    pub canais: Vec<String>,
    pub canal_atual: String,
    pub usuarios_online: Vec<UserProfile>,
    /// Avatar data URLs by user name.
    pub pfps: Vec<(String, String)>,
    /// Whether a WebSocket connection is open.
    pub conectado: bool,
}

/// What happens to the client: user input, connection events and the
/// answers to the work a `Comando` asked for.
pub enum Message {
    SubTelaAlterada(SubTelaAuth),
    UsernameAlterado(String),
    EmailAlterado(String),
    PasswordAlterado(String),
    SubmeterAutenticacao,
    InputAlterado(String),
    EnviarMensagem,
    /// A connection was opened (`true`) or is gone (`false`).
    ConexaoPronta(bool),
    ConexaoFalhou(String),
    ConexaoEncerrada(String),
    /// A text frame from the server, read as a protocol message (`None` when
    /// it is not one).
    MensagemRecebida(Option<ChatProtocol>),
    MudarCanal(String),
    /// The file a `/pfp` command named was read: its path and its bytes or
    /// the error message.
    PfpLida(String, Result<Vec<u8>, String>),
    /// A message was sent; `autenticacao` tells a login or registration
    /// request, `erro` the error the send gave, if any.
    EnvioConcluido { autenticacao: bool, erro: Option<String> },
}

/// The work a step asks of its runner.
pub struct Comando {
    /// A message to send to the server.
    pub enviar: Option<ChatProtocol>,
    /// The message to send is a login or registration request.
    pub autenticacao: bool,
    /// Scroll the chat to its end.
    pub rolar: bool,
    /// Read this image file and answer with `Message::PfpLida`.
    pub ler_pfp: Option<String>,
    /// Avatars to render anew: user name and avatar data URL.
    pub avatares: Vec<(String, String)>,
}

pub open spec fn nada(c: Comando) -> bool {
    &&& c.enviar is None
    &&& !c.autenticacao
    &&& !c.rolar
    &&& c.ler_pfp is None
    &&& c.avatares@.len() == 0
}

fn comando_nada() -> (c: Comando)
    ensures
        nada(c),
{
    Comando { enviar: None, autenticacao: false, rolar: false, ler_pfp: None, avatares: Vec::new() }
}

pub open spec fn vista_pares(v: Seq<(String, String)>) -> Seq<(Seq<char>, Seq<char>)> {
    v.map_values(|p: (String, String)| (p.0@, p.1@))
}

pub open spec fn vista_perfis(v: Seq<UserProfile>) -> Seq<(Seq<char>, Option<Seq<char>>)> {
    v.map_values(|p: UserProfile| (p.username@, vista_opcao(p.pfp)))
}

/// One profile's avatar recorded: when it differs from the one known for the
/// user, it replaces it and is to be rendered.
pub open spec fn registrar_um(
    e: (Map<Seq<char>, Seq<char>>, Seq<(Seq<char>, Seq<char>)>),
    perfil: (Seq<char>, Option<Seq<char>>),
) -> (Map<Seq<char>, Seq<char>>, Seq<(Seq<char>, Seq<char>)>) {
    let (m, a) = e;
    let u = perfil.0;
    match perfil.1 {
        Some(p) => if m.contains_key(u) && m[u] == p {
            (m, a)
        } else {
            (m.insert(u, p), a.push((u, p)))
        },
        None => (m, a),
    }
}

/// The avatars that profiles carry recorded in order, with the list of those
/// to render.
pub open spec fn registrar(
    m: Map<Seq<char>, Seq<char>>,
    us: Seq<(Seq<char>, Option<Seq<char>>)>,
) -> (Map<Seq<char>, Seq<char>>, Seq<(Seq<char>, Seq<char>)>)
    decreases us.len(),
{
    if us.len() == 0 {
        (m, seq![])
    } else {
        registrar_um(registrar(m, us.drop_last()), us.last())
    }
}

/// A notice line of the history.
pub open spec fn linha_sistema(msg: Seq<char>) -> Seq<char> {
    "[SISTEMA] "@ + msg
}

/// The history line of a chat message.
pub open spec fn formatar_chat(user: Seq<char>, msg: Seq<char>, time: Option<Seq<char>>) -> Seq<char> {
    match time {
        Some(t) => "["@ + user + "|"@ + t + "]: "@ + msg,
        None => "["@ + user + "]: "@ + msg,
    }
}

/// The last `LIMITE_HISTORICO_LOCAL` lines of a history.
pub open spec fn historico_apos(h: Seq<Seq<char>>) -> Seq<Seq<char>> {
    if h.len() > LIMITE_HISTORICO_LOCAL {
        h.skip(h.len() - LIMITE_HISTORICO_LOCAL)
    } else {
        h
    }
}

pub open spec fn erro_status(o: Karu, n: Karu, msg: Seq<char>) -> bool {
    &&& n == Karu { status_erro: n.status_erro, ..o }
    &&& n.status_erro@ == msg
}

pub open spec fn falhou_spec(o: Karu, msg: Seq<char>, n: Karu) -> bool {
    &&& n == Karu { conectado: false, status_conexao: n.status_conexao, status_erro: n.status_erro, ..o }
    &&& n.status_conexao@ == "ws falhou"@
    &&& n.status_erro@ == msg
}

/// Only a message to send, a login or registration request.
pub open spec fn so_envio_auth(c: Comando) -> bool {
    &&& c.autenticacao
    &&& !c.rolar
    &&& c.ler_pfp is None
    &&& c.avatares@.len() == 0
}

/// Submitting the authentication form: both fields are needed; without a
/// connection nothing is sent; on the login form a login request goes out,
/// on the registration form (which also needs the e-mail) a registration.
pub open spec fn submeter_spec(o: Karu, n: Karu, c: Comando) -> bool {
    if o.input_username@.len() == 0 || o.input_password.0@.len() == 0 {
        erro_status(o, n, "Preencha os campos obrigatórios!"@) && nada(c)
    } else if !o.conectado {
        erro_status(o, n, "Sem conexão WebSocket em "@ + o.ws_url@) && nada(c)
    } else {
        match o.tela {
            TelaAtual::Autenticacao(SubTelaAuth::Login) => {
                &&& n == o
                &&& so_envio_auth(c)
                &&& c.enviar matches Some(ChatProtocol::Login { username, password })
                &&& username@ == o.input_username@
                &&& password.0@ == o.input_password.0@
            },
            TelaAtual::Autenticacao(SubTelaAuth::Cadastro) => if o.input_email@.len() == 0 {
                erro_status(o, n, "E-mail é obrigatório!"@) && nada(c)
            } else {
                &&& n == o
                &&& so_envio_auth(c)
                &&& c.enviar matches Some(ChatProtocol::Register { username, email, password })
                &&& username@ == o.input_username@
                &&& email@ == o.input_email@
                &&& password.0@ == o.input_password.0@
            },
            TelaAtual::Chat => n == o && nada(c),
        }
    }
}

/// Sending the composer text: nothing for an empty text; `/pfp <path>` asks
/// for the image file to be read when its extension is an image type, and
/// otherwise turns into a notice of the accepted types; otherwise, when connected, the text goes
/// out as a chat message and the composer is cleared.
pub open spec fn enviar_spec(o: Karu, n: Karu, c: Comando) -> bool {
    if o.input_value@.len() == 0 {
        n == o && nada(c)
    } else {
        match texto::sem_prefixo(texto::aparar(o.input_value@), "/pfp "@) {
            Some(caminho) => if dados::mime_spec(dados::extensao_caminho(texto::aparar(caminho))) is None {
                &&& n == Karu { historico_chat: n.historico_chat, input_value: n.input_value, ..o }
                &&& vista_strings(n.historico_chat@) == vista_strings(o.historico_chat@).push(
                    linha_sistema("Use uma imagem .png, .jpg, .jpeg ou .webp para a PFP."@))
                &&& n.input_value@.len() == 0
                &&& nada(c)
            } else {
                &&& n == o
                &&& c.enviar is None
                &&& !c.autenticacao
                &&& !c.rolar
                &&& c.avatares@.len() == 0
                &&& c.ler_pfp matches Some(x)
                &&& x@ == texto::aparar(caminho)
            },
            None => if o.conectado {
                &&& n == Karu { input_value: n.input_value, ..o }
                &&& n.input_value@.len() == 0
                &&& c.rolar
                &&& !c.autenticacao
                &&& c.ler_pfp is None
                &&& c.avatares@.len() == 0
                &&& c.enviar matches Some(ChatProtocol::Chat { user, msg, pfp, time })
                &&& user@ == o.username@
                &&& msg@ == o.input_value@
                &&& pfp is None
                &&& time is None
            } else {
                n == o && nada(c)
            },
        }
    }
}

/// The answer to a `/pfp` command: a failure becomes a notice; a data URL,
/// when connected, becomes the user's avatar, a notice, and an update sent to
/// the server.
pub open spec fn pfp_lida_spec(o: Karu, caminho: Seq<char>, leitura: Result<Seq<u8>, Seq<char>>, n: Karu, c: Comando) -> bool {
    match dados::data_url_de_imagem_spec(caminho, leitura) {
        Ok(pfp) => if o.conectado {
            &&& n == Karu { pfps: n.pfps, historico_chat: n.historico_chat, input_value: n.input_value, ..o }
            &&& mapa_pfps(n.pfps@) == mapa_pfps(o.pfps@).insert(o.username@, pfp)
            &&& vista_strings(n.historico_chat@) == vista_strings(o.historico_chat@).push(
                "[SISTEMA] PFP atualizada e enviada ao servidor."@)
            &&& n.input_value@.len() == 0
            &&& !c.autenticacao
            &&& !c.rolar
            &&& c.ler_pfp is None
            &&& vista_pares(c.avatares@) == seq![(o.username@, pfp)]
            &&& c.enviar matches Some(ChatProtocol::PfpUpdate { pfp: x })
            &&& x@ == pfp
        } else {
            n == o && nada(c)
        },
        Err(e) => {
            &&& n == Karu { historico_chat: n.historico_chat, input_value: n.input_value, ..o }
            &&& vista_strings(n.historico_chat@) == vista_strings(o.historico_chat@).push(linha_sistema(e))
            &&& n.input_value@.len() == 0
            &&& nada(c)
        },
    }
}

/// A message from the server: an authentication answer, a chat line, the
/// list of users online or a notice; afterwards the history keeps only its
/// last `LIMITE_HISTORICO_LOCAL` lines.
pub open spec fn recebida_spec(o: Karu, p: ChatProtocol, n: Karu, c: Comando) -> bool {
    let h0 = vista_strings(o.historico_chat@);
    match p {
        ChatProtocol::AuthResponse { success, msg } => if success && o.tela == TelaAtual::Autenticacao(SubTelaAuth::Login) {
            &&& n == Karu {
                username: n.username,
                tela: TelaAtual::Chat,
                historico_chat: n.historico_chat,
                status_erro: n.status_erro,
                ..o
            }
            &&& n.username@ == o.input_username@
            &&& n.historico_chat@.len() == 0
            &&& n.status_erro@.len() == 0
            &&& nada(c)
        } else if success {
            &&& n == Karu {
                tela: TelaAtual::Autenticacao(SubTelaAuth::Login),
                status_erro: n.status_erro,
                historico_chat: n.historico_chat,
                ..o
            }
            &&& n.status_erro@ == "Conta criada! Faça login."@
            &&& vista_strings(n.historico_chat@) == historico_apos(h0)
            &&& nada(c)
        } else {
            &&& n == Karu { status_erro: msg, historico_chat: n.historico_chat, ..o }
            &&& vista_strings(n.historico_chat@) == historico_apos(h0)
            &&& nada(c)
        },
        ChatProtocol::Chat { user, msg, pfp, time } => {
            let (m2, avs) = registrar(mapa_pfps(o.pfps@), seq![(user@, vista_opcao(pfp))]);
            &&& n == Karu { pfps: n.pfps, historico_chat: n.historico_chat, ..o }
            &&& mapa_pfps(n.pfps@) == m2
            &&& vista_strings(n.historico_chat@) == historico_apos(h0.push(formatar_chat(user@, msg@, vista_opcao(time))))
            &&& c.rolar
            &&& c.enviar is None
            &&& !c.autenticacao
            &&& c.ler_pfp is None
            &&& vista_pares(c.avatares@) == avs
        },
        ChatProtocol::UserList { users } => {
            let (m2, avs) = registrar(mapa_pfps(o.pfps@), vista_perfis(users@));
            &&& n == Karu { pfps: n.pfps, historico_chat: n.historico_chat, usuarios_online: users, ..o }
            &&& mapa_pfps(n.pfps@) == m2
            &&& vista_strings(n.historico_chat@) == historico_apos(h0)
            &&& !c.rolar
            &&& c.enviar is None
            &&& !c.autenticacao
            &&& c.ler_pfp is None
            &&& vista_pares(c.avatares@) == avs
        },
        ChatProtocol::System { msg } => {
            &&& n == Karu { historico_chat: n.historico_chat, ..o }
            &&& vista_strings(n.historico_chat@) == historico_apos(h0.push(linha_sistema(msg@)))
            &&& c.rolar
            &&& c.enviar is None
            &&& !c.autenticacao
            &&& c.ler_pfp is None
            &&& c.avatares@.len() == 0
        },
        _ => {
            &&& n == Karu { historico_chat: n.historico_chat, ..o }
            &&& vista_strings(n.historico_chat@) == historico_apos(h0)
            &&& nada(c)
        },
    }
}

/// What one step does to the client and what it asks of its runner.
pub open spec fn efeito(o: Karu, m: Message, n: Karu, c: Comando) -> bool {
    match m {
        Message::SubTelaAlterada(aba) => {
            &&& n == Karu { tela: TelaAtual::Autenticacao(aba), status_erro: n.status_erro, ..o }
            &&& n.status_erro@.len() == 0
            &&& nada(c)
        },
        Message::UsernameAlterado(v) => n == Karu { input_username: v, ..o } && nada(c),
        Message::EmailAlterado(v) => n == Karu { input_email: v, ..o } && nada(c),
        Message::PasswordAlterado(v) => n == Karu { input_password: Password(v), ..o } && nada(c),
        Message::SubmeterAutenticacao => submeter_spec(o, n, c),
        Message::InputAlterado(v) => n == Karu { input_value: v, ..o } && nada(c),
        Message::EnviarMensagem => enviar_spec(o, n, c),
        Message::ConexaoPronta(b) => {
            &&& n == Karu { status_conexao: n.status_conexao, conectado: b, ..o }
            &&& n.status_conexao@ == (if b { "ws conectado"@ } else { "ws offline"@ })
            &&& nada(c)
        },
        Message::ConexaoFalhou(e) => falhou_spec(o, e@, n) && nada(c),
        Message::ConexaoEncerrada(motivo) => {
            &&& n == Karu {
                conectado: false,
                status_conexao: n.status_conexao,
                status_erro: n.status_erro,
                historico_chat: n.historico_chat,
                ..o
            }
            &&& n.status_conexao@ == "ws desconectado"@
            &&& if o.tela is Autenticacao {
                n.status_erro == motivo && n.historico_chat == o.historico_chat
            } else {
                n.status_erro == o.status_erro
                    && vista_strings(n.historico_chat@) == vista_strings(o.historico_chat@).push(linha_sistema(motivo@))
            }
            &&& nada(c)
        },
        Message::MensagemRecebida(p) => match p {
            None => n == o && nada(c),
            Some(p) => recebida_spec(o, p, n, c),
        },
        Message::MudarCanal(nome) => {
            &&& n == Karu { canal_atual: nome, historico_chat: n.historico_chat, ..o }
            &&& n.historico_chat@.len() == 0
            &&& !c.autenticacao
            &&& !c.rolar
            &&& c.ler_pfp is None
            &&& c.avatares@.len() == 0
            &&& if o.conectado {
                c.enviar matches Some(ChatProtocol::JoinChannel { channel }) && channel@ == nome@
            } else {
                c.enviar is None
            }
        },
        Message::PfpLida(caminho, leitura) => pfp_lida_spec(o, caminho@, dados::vista_leitura(leitura), n, c),
        Message::EnvioConcluido { autenticacao, erro } => match erro {
            Some(e) if autenticacao => falhou_spec(o, "Falha ao enviar auth: "@ + e@, n) && nada(c),
            _ => n == Karu { input_value: n.input_value, ..o } && n.input_value@.len() == 0 && nada(c),
        },
    }
}

fn linha_sistema_exec(msg: &str) -> (r: String)
    ensures
        r@ == linha_sistema(msg@),
{
    let mut r = "[SISTEMA] ".to_owned();
    r.append(msg);
    r
}

fn formatar_chat_exec(user: &String, msg: &String, time: &Option<String>) -> (r: String)
    ensures
        r@ == formatar_chat(user@, msg@, vista_opcao(*time)),
{
    let mut r = "[".to_owned();
    r.append(user.as_str());
    match time {
        Some(t) => {
            r.append("|");
            r.append(t.as_str());
        },
        None => {},
    }
    r.append("]: ");
    r.append(msg.as_str());
    r
}

fn aparar_historico(h: &mut Vec<String>)
    ensures
        vista_strings(final(h)@) == historico_apos(vista_strings(old(h)@)),
{
    if h.len() > LIMITE_HISTORICO_LOCAL {
        let excedente = h.len() - LIMITE_HISTORICO_LOCAL;
        let resto = h.split_off(excedente);
        *h = resto;
        assert(vista_strings(h@) =~= historico_apos(vista_strings(old(h)@)));
    }
}

fn registrar_exec(pfps: &mut Vec<(String, String)>, avatares: &mut Vec<(String, String)>, user: &String, pfp: &Option<String>)
    ensures
        (mapa_pfps(final(pfps)@), vista_pares(final(avatares)@)) == registrar_um(
            (mapa_pfps(old(pfps)@), vista_pares(old(avatares)@)),
            (user@, vista_opcao(*pfp)),
        ),
{
    match pfp {
        Some(p) => {
            let atual = pfp_de(pfps, user);
            let igual = match &atual {
                Some(a) => *a == *p,
                None => false,
            };
            if !igual {
                let ghost av = avatares@;
                avatares.push((user.clone(), p.clone()));
                assert(vista_pares(avatares@) =~= vista_pares(av).push((user@, p@)));
                gravar_pfp(pfps, user.clone(), p.clone());
            }
        },
        None => {},
    }
}

/// The server address when none is given.
pub open spec fn endereco_padrao() -> Seq<char> {
    "ws://localhost:8765"@
}

/// The server address: the configured value when there is one, else the
/// local default.
pub open spec fn endereco_spec(valor: Option<Seq<char>>) -> Seq<char> {
    match valor {
        Some(v) => v,
        None => endereco_padrao(),
    }
}

/// The server address from the configured value (the `KARU_WS_URL`
/// variable, `None` when it is unset or not text).
pub fn endereco_servidor(valor: Option<String>) -> (r: String)
    ensures
        r@ == endereco_spec(vista_opcao(valor)),
{
    match valor {
        Some(v) => v,
        None => "ws://localhost:8765".to_owned(),
    }
}

impl Karu {
    /// The client as it starts: on the login form, connecting to the server
    /// address given by `valor_endereco` (see `endereco_servidor`), with the
    /// channels `geral`, `dev` and `ajuda` and `geral` open.
    pub fn new(valor_endereco: Option<String>) -> (k: Karu)
        ensures
            k.tela == TelaAtual::Autenticacao(SubTelaAuth::Login),
            k.username@.len() == 0,
            k.input_username@.len() == 0,
            k.input_email@.len() == 0,
            k.input_password.0@.len() == 0,
            k.status_erro@.len() == 0,
            k.status_conexao@ == "conectando ws"@,
            k.ws_url@ == endereco_spec(vista_opcao(valor_endereco)),
            k.input_value@.len() == 0,
            k.historico_chat@.len() == 0,
            vista_strings(k.canais@) == seq!["geral"@, "dev"@, "ajuda"@],
            k.canal_atual@ == "geral"@,
            k.usuarios_online@.len() == 0,
            k.pfps@.len() == 0,
            !k.conectado,
    {
        let ws_url = endereco_servidor(valor_endereco);
        let mut canais: Vec<String> = Vec::new();
        canais.push("geral".to_owned());
        canais.push("dev".to_owned());
        canais.push("ajuda".to_owned());
        let k = Karu {
            tela: TelaAtual::Autenticacao(SubTelaAuth::Login),
            username: String::new(),
            input_username: String::new(),
            input_email: String::new(),
            input_password: Password(String::new()),
            status_erro: String::new(),
            status_conexao: "conectando ws".to_owned(),
            ws_url: ws_url,
            input_value: String::new(),
            historico_chat: Vec::new(),
            canais: canais,
            canal_atual: "geral".to_owned(),
            usuarios_online: Vec::new(),
            pfps: Vec::new(),
            conectado: false,
        };
        assert(vista_strings(k.canais@) =~= seq!["geral"@, "dev"@, "ajuda"@]);
        k
    }

    /// Whether the status text reports success (it tells of a created
    /// account), which the form shows as good news rather than an error.
    pub fn status_de_sucesso(&self) -> (r: bool)
        ensures
            r == (texto::achar(self.status_erro@, "Conta criada"@) is Some),
    {
        let marca = chars_de("Conta criada");
        proof {
            reveal_strlit("Conta criada");
        }
        texto::achar_exec(&chars_de(self.status_erro.as_str()), &marca).is_some()
    }

    /// The window title.
    pub fn title(&self) -> (r: String)
        ensures
            r@ == match self.tela {
                TelaAtual::Autenticacao(_) => "Karu - Autenticação Segura"@,
                TelaAtual::Chat => "Karu - [#"@ + self.canal_atual@ + "] como "@ + self.username@,
            },
    {
        match self.tela {
            TelaAtual::Autenticacao(_) => "Karu - Autenticação Segura".to_owned(),
            TelaAtual::Chat => {
                let mut r = "Karu - [#".to_owned();
                r.append(self.canal_atual.as_str());
                r.append("] como ");
                r.append(self.username.as_str());
                r
            },
        }
    }
}

impl Karu {
    fn submeter(&mut self) -> (c: Comando)
        ensures
            submeter_spec(*old(self), *final(self), c),
    {
        if self.input_username.as_str().is_empty() || self.input_password.0.as_str().is_empty() {
            self.status_erro = "Preencha os campos obrigatórios!".to_owned();
            return comando_nada();
        }
        if !self.conectado {
            let mut msg = "Sem conexão WebSocket em ".to_owned();
            msg.append(self.ws_url.as_str());
            self.status_erro = msg;
            return comando_nada();
        }
        match self.tela {
            TelaAtual::Autenticacao(SubTelaAuth::Login) => {
                let pedido = ChatProtocol::Login {
                    username: self.input_username.clone(),
                    password: Password(self.input_password.0.clone()),
                };
                Comando { enviar: Some(pedido), autenticacao: true, rolar: false, ler_pfp: None, avatares: Vec::new() }
            },
            TelaAtual::Autenticacao(SubTelaAuth::Cadastro) => {
                if self.input_email.as_str().is_empty() {
                    self.status_erro = "E-mail é obrigatório!".to_owned();
                    return comando_nada();
                }
                let pedido = ChatProtocol::Register {
                    username: self.input_username.clone(),
                    email: self.input_email.clone(),
                    password: Password(self.input_password.0.clone()),
                };
                Comando { enviar: Some(pedido), autenticacao: true, rolar: false, ler_pfp: None, avatares: Vec::new() }
            },
            TelaAtual::Chat => comando_nada(),
        }
    }

    fn enviar_mensagem(&mut self) -> (c: Comando)
        ensures
            enviar_spec(*old(self), *final(self), c),
    {
        if self.input_value.as_str().is_empty() {
            return comando_nada();
        }
        let aparado = aparar_vec(&chars_de(self.input_value.as_str()));
        match sem_prefixo_exec(&aparado, &chars_de("/pfp ")) {
            Some(caminho) => {
                let caminho = string_de(&aparar_vec(&caminho));
                if dados::mime_imagem(caminho.as_str()).is_none() {
                    let aviso = "Use uma imagem .png, .jpg, .jpeg ou .webp para a PFP.";
                    self.historico_chat.push(linha_sistema_exec(aviso));
                    assert(vista_strings(self.historico_chat@) =~= vista_strings(old(self).historico_chat@).push(
                        linha_sistema(aviso@)));
                    self.input_value = String::new();
                    return comando_nada();
                }
                Comando { enviar: None, autenticacao: false, rolar: false, ler_pfp: Some(caminho), avatares: Vec::new() }
            },
            None => {
                if self.conectado {
                    let msg = ChatProtocol::Chat {
                        user: self.username.clone(),
                        msg: self.input_value.clone(),
                        pfp: None,
                        time: None,
                    };
                    self.input_value = String::new();
                    Comando { enviar: Some(msg), autenticacao: false, rolar: true, ler_pfp: None, avatares: Vec::new() }
                } else {
                    comando_nada()
                }
            },
        }
    }

    fn pfp_lida(&mut self, caminho: String, leitura: Result<Vec<u8>, String>) -> (c: Comando)
        ensures
            pfp_lida_spec(*old(self), caminho@, dados::vista_leitura(leitura), *final(self), c),
    {
        match imagem_para_data_url(caminho.as_str(), leitura) {
            Ok(pfp) => {
                if self.conectado {
                    let mut avatares: Vec<(String, String)> = Vec::new();
                    avatares.push((self.username.clone(), pfp.clone()));
                    assert(vista_pares(avatares@) =~= seq![(old(self).username@, pfp@)]);
                    gravar_pfp(&mut self.pfps, self.username.clone(), pfp.clone());
                    self.historico_chat.push("[SISTEMA] PFP atualizada e enviada ao servidor.".to_owned());
                    assert(vista_strings(self.historico_chat@) =~= vista_strings(old(self).historico_chat@).push(
                        "[SISTEMA] PFP atualizada e enviada ao servidor."@));
                    self.input_value = String::new();
                    Comando {
                        enviar: Some(ChatProtocol::PfpUpdate { pfp: pfp }),
                        autenticacao: false,
                        rolar: false,
                        ler_pfp: None,
                        avatares: avatares,
                    }
                } else {
                    comando_nada()
                }
            },
            Err(erro) => {
                self.historico_chat.push(linha_sistema_exec(erro.as_str()));
                assert(vista_strings(self.historico_chat@) =~= vista_strings(old(self).historico_chat@).push(
                    linha_sistema(erro@)));
                self.input_value = String::new();
                comando_nada()
            },
        }
    }

    fn receber(&mut self, p: ChatProtocol) -> (c: Comando)
        ensures
            recebida_spec(*old(self), p, *final(self), c),
    {
        let ghost h0 = vista_strings(self.historico_chat@);
        let mut c = comando_nada();
        match p {
            ChatProtocol::AuthResponse { success, msg } => {
                if success {
                    if self.tela == TelaAtual::Autenticacao(SubTelaAuth::Login) {
                        self.username = self.input_username.clone();
                        self.tela = TelaAtual::Chat;
                        self.historico_chat = Vec::new();
                        self.status_erro = String::new();
                    } else {
                        self.tela = TelaAtual::Autenticacao(SubTelaAuth::Login);
                        self.status_erro = "Conta criada! Faça login.".to_owned();
                    }
                } else {
                    self.status_erro = msg;
                }
            },
            ChatProtocol::Chat { user, msg, pfp, time } => {
                let ghost m0 = mapa_pfps(self.pfps@);
                let ghost um = seq![(user@, vista_opcao(pfp))];
                assert(vista_pares(c.avatares@) =~= Seq::<(Seq<char>, Seq<char>)>::empty());
                registrar_exec(&mut self.pfps, &mut c.avatares, &user, &pfp);
                assert(um.drop_last() =~= Seq::<(Seq<char>, Option<Seq<char>>)>::empty());
                assert(registrar(m0, um.drop_last()) == (m0, Seq::<(Seq<char>, Seq<char>)>::empty()));
                assert(um.last() == (user@, vista_opcao(pfp)));
                assert((mapa_pfps(self.pfps@), vista_pares(c.avatares@)) == registrar(m0, um));
                let linha = formatar_chat_exec(&user, &msg, &time);
                self.historico_chat.push(linha);
                assert(vista_strings(self.historico_chat@) =~= h0.push(formatar_chat(user@, msg@, vista_opcao(time))));
                c.rolar = true;
            },
            ChatProtocol::UserList { users } => {
                let ghost m0 = mapa_pfps(self.pfps@);
                let ghost us = vista_perfis(users@);
                let mut i: usize = 0;
                assert(us.take(0) =~= Seq::<(Seq<char>, Option<Seq<char>>)>::empty());
                assert(vista_pares(c.avatares@) =~= Seq::<(Seq<char>, Seq<char>)>::empty());
                while i < users.len()
                    invariant
                        i <= users@.len(),
                        us == vista_perfis(users@),
                        (mapa_pfps(self.pfps@), vista_pares(c.avatares@)) == registrar(m0, us.take(i as int)),
                        c.enviar is None,
                        !c.autenticacao,
                        !c.rolar,
                        c.ler_pfp is None,
                        *self == (Karu { pfps: self.pfps, ..*old(self) }),
                    decreases users@.len() - i,
                {
                    assert(us.take(i + 1).drop_last() =~= us.take(i as int));
                    assert(us.take(i + 1).last() == (users@[i as int].username@, vista_opcao(users@[i as int].pfp)));
                    registrar_exec(&mut self.pfps, &mut c.avatares, &users[i].username, &users[i].pfp);
                    i = i + 1;
                }
                assert(us.take(users@.len() as int) =~= us);
                self.usuarios_online = users;
            },
            ChatProtocol::System { msg } => {
                self.historico_chat.push(linha_sistema_exec(msg.as_str()));
                assert(vista_strings(self.historico_chat@) =~= h0.push(linha_sistema(msg@)));
                c.rolar = true;
            },
            _ => {},
        }
        aparar_historico(&mut self.historico_chat);
        proof {
            if self.historico_chat@.len() == 0 {
                assert(vista_strings(self.historico_chat@) =~= Seq::<Seq<char>>::empty());
            }
        }
        c
    }

    /// One step of the client: applies `message` and returns the work it asks for.
    pub fn update(&mut self, message: Message) -> (c: Comando)
        ensures
            efeito(*old(self), message, *final(self), c),
    {
        match message {
            Message::SubTelaAlterada(aba) => {
                self.tela = TelaAtual::Autenticacao(aba);
                self.status_erro = String::new();
                comando_nada()
            },
            Message::UsernameAlterado(v) => {
                self.input_username = v;
                comando_nada()
            },
            Message::EmailAlterado(v) => {
                self.input_email = v;
                comando_nada()
            },
            Message::PasswordAlterado(v) => {
                self.input_password = Password(v);
                comando_nada()
            },
            Message::SubmeterAutenticacao => self.submeter(),
            Message::InputAlterado(v) => {
                self.input_value = v;
                comando_nada()
            },
            Message::EnviarMensagem => self.enviar_mensagem(),
            Message::ConexaoPronta(b) => {
                self.status_conexao = if b {
                    "ws conectado".to_owned()
                } else {
                    "ws offline".to_owned()
                };
                self.conectado = b;
                comando_nada()
            },
            Message::ConexaoFalhou(erro) => {
                self.conectado = false;
                self.status_conexao = "ws falhou".to_owned();
                self.status_erro = erro;
                comando_nada()
            },
            Message::ConexaoEncerrada(motivo) => {
                self.conectado = false;
                self.status_conexao = "ws desconectado".to_owned();
                match self.tela {
                    TelaAtual::Autenticacao(_) => {
                        self.status_erro = motivo;
                    },
                    TelaAtual::Chat => {
                        self.historico_chat.push(linha_sistema_exec(motivo.as_str()));
                        assert(vista_strings(self.historico_chat@) =~= vista_strings(old(self).historico_chat@).push(
                            linha_sistema(motivo@)));
                    },
                }
                comando_nada()
            },
            Message::MensagemRecebida(p) => match p {
                Some(p) => self.receber(p),
                None => comando_nada(),
            },
            Message::MudarCanal(nome) => {
                let canal = nome.clone();
                self.canal_atual = nome;
                self.historico_chat = Vec::new();
                if self.conectado {
                    Comando {
                        enviar: Some(ChatProtocol::JoinChannel { channel: canal }),
                        autenticacao: false,
                        rolar: false,
                        ler_pfp: None,
                        avatares: Vec::new(),
                    }
                } else {
                    comando_nada()
                }
            },
            Message::PfpLida(caminho, leitura) => self.pfp_lida(caminho, leitura),
            Message::EnvioConcluido { autenticacao, erro } => match erro {
                Some(e) if autenticacao => {
                    let mut msg = "Falha ao enviar auth: ".to_owned();
                    msg.append(e.as_str());
                    self.conectado = false;
                    self.status_conexao = "ws falhou".to_owned();
                    self.status_erro = msg;
                    comando_nada()
                },
                _ => {
                    self.input_value = String::new();
                    comando_nada()
                },
            },
        }
    }
}

} // verus!
