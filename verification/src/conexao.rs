use vstd::prelude::*;
use vstd::string::StringExecFns;

verus! {

broadcast use vstd::string::group_string_axioms;

/// A frame read from the server's WebSocket, reduced to what the client looks at.
pub enum QuadroWs {
    /// A text frame.
    Texto(String),
    /// A close frame, with the reason it gives, if it has a frame at all.
    Fechamento(Option<String>),
    /// Any other frame (binary, ping, pong).
    Outro,
    /// Reading failed; the error as text.
    Erro(String),
}

/// What the connection loop does with a frame.
pub enum ReacaoQuadro {
    /// Hand the text to the client as a server message, and read on.
    Entregar(String),
    /// Tell the client the connection ended for this reason, and stop reading.
    Encerrar(String),
    /// Read on.
    Ignorar,
}

/// The reason shown when the server closes the connection: the one its close
/// frame gives, or a fixed text when there is none or it is empty.
pub open spec fn motivo_fechamento(motivo: Option<Seq<char>>) -> Seq<char> {
    match motivo {
        Some(m) => if m.len() > 0 { m } else { "servidor fechou o websocket"@ },
        None => "servidor fechou o websocket"@,
    }
}

/// How the connection loop answers a frame.
pub fn reagir_quadro(q: QuadroWs) -> (r: ReacaoQuadro)
    ensures
        match q {
            QuadroWs::Texto(t) => r == ReacaoQuadro::Entregar(t),
            QuadroWs::Fechamento(m) => r matches ReacaoQuadro::Encerrar(x)
                && x@ == motivo_fechamento(crate::chat::vista_opcao(m)),
            QuadroWs::Outro => r is Ignorar,
            QuadroWs::Erro(e) => r matches ReacaoQuadro::Encerrar(x) && x@ == "WebSocket caiu: "@ + e@,
        },
{
    match q {
        QuadroWs::Texto(t) => ReacaoQuadro::Entregar(t),
        QuadroWs::Fechamento(m) => {
            let motivo = match m {
                Some(x) => if x.as_str().is_empty() {
                    "servidor fechou o websocket".to_owned()
                } else {
                    x
                },
                None => "servidor fechou o websocket".to_owned(),
            };
            ReacaoQuadro::Encerrar(motivo)
        },
        QuadroWs::Outro => ReacaoQuadro::Ignorar,
        QuadroWs::Erro(e) => {
            let mut msg = "WebSocket caiu: ".to_owned();
            msg.append(e.as_str());
            ReacaoQuadro::Encerrar(msg)
        },
    }
}

/// The error shown when the connection cannot be opened.
pub fn falha_ao_conectar(url: &str, erro: &str) -> (r: String)
    ensures
        r@ == "Não conectou em "@ + url@ + ": "@ + erro@,
{
    let mut r = "Não conectou em ".to_owned();
    r.append(url);
    r.append(": ");
    r.append(erro);
    r
}

} // verus!
