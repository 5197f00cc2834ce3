use vstd::prelude::*;
use crate::texto;
use crate::texto::{chars_de, comeca_com_exec, trecho, achar_exec, inicio_sem_espaco};
use vstd::string::StrSliceExecFns;

verus! {

broadcast use vstd::string::group_string_axioms;

/// A line of the local chat history, as the chat view reads it.
pub enum LinhaChat<'a> {
    /// A notice from the client or the server.
    Sistema(&'a str),
    /// A message: `[autor]: conteudo` or `[autor|hora]: conteudo`.
    Mensagem { autor: &'a str, hora: Option<&'a str>, conteudo: &'a str },
}

/// The mathematical form of a `LinhaChat`.
pub enum LinhaChatSpec {
    Sistema(Seq<char>),
    Mensagem(Seq<char>, Option<Seq<char>>, Seq<char>),
}

impl<'a> LinhaChat<'a> {
    pub open spec fn vista(&self) -> LinhaChatSpec {
        match *self {
            LinhaChat::Sistema(s) => LinhaChatSpec::Sistema(s@),
            LinhaChat::Mensagem { autor, hora, conteudo } => LinhaChatSpec::Mensagem(
                autor@,
                match hora {
                    Some(h) => Some(h@),
                    None => None,
                },
                conteudo@,
            ),
        }
    }
}

/// How a history line is read: a line that starts with `[SISTEMA] ` is a
/// notice (the rest of it); a line `[X]: Y` is a message by `X` with content
/// `Y` (at the first `]: `), where `X` may be `autor|hora` (at the first `|`);
/// anything else is a notice holding the whole line.
pub open spec fn separar_spec(s: Seq<char>) -> LinhaChatSpec {
    match texto::sem_prefixo(s, "[SISTEMA] "@) {
        Some(r) => LinhaChatSpec::Sistema(r),
        None => match texto::sem_prefixo(s, seq!['[']) {
            Some(resto) => match texto::dividir_em(resto, "]: "@) {
                Some((autor, conteudo)) => match texto::dividir_em(autor, seq!['|']) {
                    Some((nome, hora)) => LinhaChatSpec::Mensagem(nome, Some(hora), conteudo),
                    None => LinhaChatSpec::Mensagem(autor, None, conteudo),
                },
                None => LinhaChatSpec::Sistema(s),
            },
            None => LinhaChatSpec::Sistema(s),
        },
    }
}

/// Splits a history line into a notice or a message with author, optional
/// time and content.
pub fn separar_linha_chat(linha: &str) -> (r: LinhaChat<'_>)
    ensures
        r.vista() == separar_spec(linha@),
{
    let v = chars_de(linha);
    let n = v.len();
    let prefixo = chars_de("[SISTEMA] ");
    if comeca_com_exec(&v, &prefixo) {
        let r = linha.substring_char(prefixo.len(), n);
        return LinhaChat::Sistema(r);
    }
    if n > 0 && v[0] == '[' {
        let ghost resto = v@.skip(1);
        proof {
            assert(v@.take(1) =~= seq!['[']);
            assert(texto::sem_prefixo(v@, seq!['[']) == Some(resto));
        }
        let resto_v = trecho(&v, 1, n);
        assert(resto_v@ =~= resto);
        let fecho = chars_de("]: ");
        proof {
            reveal_strlit("]: ");
        }
        match achar_exec(&resto_v, &fecho) {
            Some(k) => {
                proof {
                    texto::lema_achar_desde(resto, fecho@, 0);
                }
                let autor_v = trecho(&resto_v, 0, k);
                let barra = chars_de("|");
                proof {
                    reveal_strlit("|");
                    assert(barra@ =~= seq!['|']);
                    assert(autor_v@ =~= resto.take(k as int));
                    assert(resto.skip(k + 3) =~= v@.subrange(k + 4, n as int));
                }
                let conteudo = linha.substring_char(k + 4, n);
                match achar_exec(&autor_v, &barra) {
                    Some(m) => {
                        proof {
                            texto::lema_achar_desde(autor_v@, barra@, 0);
                            assert(autor_v@.take(m as int) =~= v@.subrange(1, m + 1));
                            assert(autor_v@.skip(m + 1) =~= v@.subrange(m + 2, k + 1));
                        }
                        let nome = linha.substring_char(1, m + 1);
                        let hora = linha.substring_char(m + 2, k + 1);
                        assert(texto::dividir_em(resto, "]: "@) == Some((autor_v@, conteudo@)));
                        assert(texto::dividir_em(autor_v@, seq!['|']) == Some((nome@, hora@)));
                        LinhaChat::Mensagem { autor: nome, hora: Some(hora), conteudo }
                    },
                    None => {
                        proof {
                            assert(autor_v@ =~= v@.subrange(1, k + 1));
                        }
                        let nome = linha.substring_char(1, k + 1);
                        assert(texto::dividir_em(resto, "]: "@) == Some((autor_v@, conteudo@)));
                        assert(texto::dividir_em(autor_v@, seq!['|']) is None);
                        LinhaChat::Mensagem { autor: nome, hora: None, conteudo }
                    },
                }
            },
            None => {
                assert(texto::dividir_em(resto, "]: "@) is None);
                LinhaChat::Sistema(linha)
            },
        }
    } else {
        proof {
            if n > 0 {
                assert(v@.take(1)[0] == v@[0]);
            }
            assert(texto::sem_prefixo(v@, seq!['[']) is None);
            assert(texto::sem_prefixo(v@, "[SISTEMA] "@) is None);
        }
        LinhaChat::Sistema(linha)
    }
}

/// Upper-case form of a character under Unicode case mapping (what
/// `char::to_uppercase` yields); it may be more than one character.
pub uninterp spec fn maiusculas(c: char) -> Seq<char>;

/// Calls `char::to_uppercase` and collects the characters it yields.
/// Trusted: the result is `maiusculas(c)`, and it has at least one character
/// (std documents that the mapping yields one or more); nothing more is said.
#[verifier::external_body]
fn para_maiusculas(c: char) -> (r: String)
    ensures
        r@ == maiusculas(c),
        r@.len() > 0,
{
    c.to_uppercase().collect()
}

/// The avatar letter of a user: the upper case of the first character that
/// is not whitespace, or `?` when there is none.
pub open spec fn inicial_spec(nome: Seq<char>) -> Seq<char> {
    if texto::aparar_inicio(nome).len() > 0 {
        maiusculas(texto::aparar_inicio(nome)[0])
    } else {
        "?"@
    }
}

/// The letter shown in place of a missing avatar.
pub fn inicial_usuario(nome: &str) -> (r: String)
    ensures
        r@ == inicial_spec(nome@),
        r@.len() > 0,
{
    let v = chars_de(nome);
    let k = inicio_sem_espaco(&v);
    if k < v.len() {
        para_maiusculas(v[k])
    } else {
        proof {
            reveal_strlit("?");
        }
        "?".to_owned()
    }
}


/// A run of the chat view: one notice, or consecutive messages by one author.
pub enum GrupoChat {
    Sistema(String),
    Mensagens { autor: String, hora: Option<String>, conteudos: Vec<String> },
}

/// The mathematical form of a `GrupoChat`.
pub enum GrupoSpec {
    Sistema(Seq<char>),
    Mensagens(Seq<char>, Option<Seq<char>>, Seq<Seq<char>>),
}

pub open spec fn vista_opcao(o: Option<String>) -> Option<Seq<char>> {
    match o {
        Some(s) => Some(s@),
        None => None,
    }
}

pub open spec fn vista_strings(v: Seq<String>) -> Seq<Seq<char>> {
    v.map_values(|s: String| s@)
}

impl GrupoChat {
    pub open spec fn vista(&self) -> GrupoSpec {
        match *self {
            GrupoChat::Sistema(s) => GrupoSpec::Sistema(s@),
            GrupoChat::Mensagens { autor, hora, conteudos } => GrupoSpec::Mensagens(
                autor@,
                vista_opcao(hora),
                vista_strings(conteudos@),
            ),
        }
    }
}

pub open spec fn vista_grupos(v: Seq<GrupoChat>) -> Seq<GrupoSpec> {
    v.map_values(|g: GrupoChat| g.vista())
}

/// Adds one read line to the groups built so far: a message by the author of
/// the last group joins it (keeping that group's time); any other line starts
/// a new group.
pub open spec fn acrescentar(g: Seq<GrupoSpec>, l: LinhaChatSpec) -> Seq<GrupoSpec> {
    match l {
        LinhaChatSpec::Sistema(m) => g.push(GrupoSpec::Sistema(m)),
        LinhaChatSpec::Mensagem(a, h, c) => {
            let novo = g.push(GrupoSpec::Mensagens(a, h, seq![c]));
            if g.len() == 0 {
                novo
            } else {
                match g.last() {
                    GrupoSpec::Mensagens(a2, h2, cs) => if a2 == a {
                        g.update(g.len() - 1, GrupoSpec::Mensagens(a, h2, cs.push(c)))
                    } else {
                        novo
                    },
                    GrupoSpec::Sistema(_) => novo,
                }
            }
        },
    }
}

/// The groups of a history, built line by line.
pub open spec fn agrupar_spec(linhas: Seq<Seq<char>>) -> Seq<GrupoSpec>
    decreases linhas.len(),
{
    if linhas.len() == 0 {
        seq![]
    } else {
        acrescentar(agrupar_spec(linhas.drop_last()), separar_spec(linhas.last()))
    }
}

/// Groups the history for display: each notice alone, and consecutive
/// messages of one author together under the time of the first.
pub fn agrupar_historico(historico: &Vec<String>) -> (r: Vec<GrupoChat>)
    ensures
        vista_grupos(r@) == agrupar_spec(vista_strings(historico@)),
{
    let mut r: Vec<GrupoChat> = Vec::new();
    let n = historico.len();
    let mut i: usize = 0;
    while i < n
        invariant
            n == historico@.len(),
            i <= n,
            vista_grupos(r@) == agrupar_spec(vista_strings(historico@).take(i as int)),
        decreases n - i,
    {
        let ghost antes = vista_grupos(r@);
        let linha = separar_linha_chat(historico[i].as_str());
        proof {
            let ls = vista_strings(historico@);
            assert(ls.take(i + 1).drop_last() =~= ls.take(i as int));
            assert(ls.take(i + 1).last() == historico@[i as int]@);
        }
        match linha {
            LinhaChat::Sistema(m) => {
                r.push(GrupoChat::Sistema(m.to_owned()));
                assert(vista_grupos(r@) =~= antes.push(GrupoSpec::Sistema(m@)));
            },
            LinhaChat::Mensagem { autor, hora, conteudo } => {
                let hora_s: Option<String> = match hora {
                    Some(h) => Some(h.to_owned()),
                    None => None,
                };
                let autor_s = autor.to_owned();
                let conteudo_s = conteudo.to_owned();
                let ultimo = r.pop();
                match ultimo {
                    Some(GrupoChat::Mensagens { autor: a2, hora: h2, conteudos: mut cs }) => {
                        if a2 == autor_s {
                            let ghost cs_antes = cs@;
                            cs.push(conteudo_s);
                            assert(vista_strings(cs@) =~= vista_strings(cs_antes).push(conteudo@));
                            r.push(GrupoChat::Mensagens { autor: a2, hora: h2, conteudos: cs });
                            assert(vista_grupos(r@) =~= antes.update(
                                antes.len() - 1,
                                GrupoSpec::Mensagens(autor@, vista_opcao(h2), vista_strings(cs_antes).push(conteudo@)),
                            ));
                        } else {
                            let ghost g = GrupoChat::Mensagens { autor: a2, hora: h2, conteudos: cs };
                            r.push(GrupoChat::Mensagens { autor: a2, hora: h2, conteudos: cs });
                            let mut novos: Vec<String> = Vec::new();
                            novos.push(conteudo_s);
                            assert(vista_strings(novos@) =~= seq![conteudo@]);
                            r.push(GrupoChat::Mensagens { autor: autor_s, hora: hora_s, conteudos: novos });
                            assert(vista_grupos(r@) =~= antes.push(
                                GrupoSpec::Mensagens(autor@, linha.vista()->Mensagem_1, seq![conteudo@]),
                            ));
                        }
                    },
                    Some(outro) => {
                        r.push(outro);
                        let mut novos: Vec<String> = Vec::new();
                        novos.push(conteudo_s);
                        assert(vista_strings(novos@) =~= seq![conteudo@]);
                        r.push(GrupoChat::Mensagens { autor: autor_s, hora: hora_s, conteudos: novos });
                        assert(vista_grupos(r@) =~= antes.push(
                            GrupoSpec::Mensagens(autor@, linha.vista()->Mensagem_1, seq![conteudo@]),
                        ));
                    },
                    None => {
                        let mut novos: Vec<String> = Vec::new();
                        novos.push(conteudo_s);
                        assert(vista_strings(novos@) =~= seq![conteudo@]);
                        r.push(GrupoChat::Mensagens { autor: autor_s, hora: hora_s, conteudos: novos });
                        assert(vista_grupos(r@) =~= antes.push(
                            GrupoSpec::Mensagens(autor@, linha.vista()->Mensagem_1, seq![conteudo@]),
                        ));
                    },
                }
            },
        }
        i = i + 1;
    }
    assert(vista_strings(historico@).take(n as int) =~= vista_strings(historico@));
    r
}

} // verus!
