use vstd::prelude::*;
use crate::chat;
use crate::chat::LinhaChatSpec;
use crate::dados;
use crate::estado;
use crate::markdown;
use crate::pfps::mapa_pfps;
use crate::protocolo::ChatProtocol;
use crate::texto;

verus! {

/// A notice line the client writes to its history is read back as that notice.
pub proof fn lei_linha_sistema(msg: Seq<char>)
    ensures
        chat::separar_spec(estado::linha_sistema(msg)) == LinhaChatSpec::Sistema(msg),
{
    let s = estado::linha_sistema(msg);
    let p = "[SISTEMA] "@;
    assert(s.take(p.len() as int) =~= p);
    assert(s.skip(p.len() as int) =~= msg);
}

/// A chat line the client writes to its history is read back as the same
/// author, time and content, when neither the author nor the time holds
/// `]: `, the author holds no `|`, and the line does not start as a notice.
#[verifier::spinoff_prover]
#[verifier::rlimit(60)]
pub proof fn lei_linha_chat(user: Seq<char>, msg: Seq<char>, time: Option<Seq<char>>)
    requires
        forall|j: int| !texto::ocorre_em(user, "]: "@, j),
        !user.contains('|'),
        time matches Some(t) ==> forall|j: int| !texto::ocorre_em(t, "]: "@, j),
        !texto::comeca_com(estado::formatar_chat(user, msg, time), "[SISTEMA] "@),
    ensures
        chat::separar_spec(estado::formatar_chat(user, msg, time)) == LinhaChatSpec::Mensagem(user, time, msg),
{
    reveal_strlit("[");
    reveal_strlit("|");
    reveal_strlit("]: ");
    let s = estado::formatar_chat(user, msg, time);
    let fim = "]: "@;
    let autor = match time {
        Some(t) => user + "|"@ + t,
        None => user,
    };
    assert(s =~= "["@ + autor + fim + msg);
    let resto = s.skip(1);
    assert(s.take(1) =~= seq!['[']);
    assert(resto =~= autor + fim + msg);
    let k = autor.len() as int;
    assert(texto::ocorre_em(resto, fim, k)) by {
        assert(resto.subrange(k, k + 3) =~= fim);
    }
    // No earlier `]: `: inside the author or the time there is none, one
    // that met `|` would hold it, and one that ran into the final `]: `
    // would need a `]` where `:` or ` ` stands.
    assert forall|j: int| 0 <= j < k implies !texto::ocorre_em(resto, fim, j) by {
        if texto::ocorre_em(resto, fim, j) {
            let w = resto.subrange(j, j + 3);
            assert(w[0] == ']' && w[1] == ':' && w[2] == ' ');
            if j + 3 > k {
                if j == k - 1 {
                    assert(w[1] == resto[k]);
                } else {
                    assert(w[2] == resto[k]);
                }
            } else {
                assert(w =~= autor.subrange(j, j + 3));
                let u = user.len() as int;
                if j + 3 <= u {
                    assert(user.subrange(j, j + 3) =~= w);
                    assert(texto::ocorre_em(user, fim, j));
                } else if j >= u + 1 {
                    let t = time->0;
                    assert(t.subrange(j - u - 1, j - u + 2) =~= w);
                    assert(texto::ocorre_em(t, fim, j - u - 1));
                } else {
                    assert(autor[u] == '|');
                    assert(w[u - j] == autor[u]);
                }
            }
        }
    }
    texto::lema_achar_em(resto, fim, k, 0);
    assert(resto.take(k) =~= autor);
    assert(resto.skip(k + 3) =~= msg);
    match time {
        Some(t) => {
            let barra = seq!['|'];
            let u = user.len() as int;
            assert(texto::ocorre_em(autor, barra, u)) by {
                assert(autor.subrange(u, u + 1) =~= barra);
            }
            assert forall|j: int| 0 <= j < u implies !texto::ocorre_em(autor, barra, j) by {
                if texto::ocorre_em(autor, barra, j) {
                    assert(autor.subrange(j, j + 1)[0] == autor[j]);
                    assert(autor[j] == user[j]);
                    assert(user.contains('|'));
                }
            }
            texto::lema_achar_em(autor, barra, u, 0);
            assert(autor.take(u) =~= user);
            assert(autor.skip(u + 1) =~= t);
        },
        None => {
            let barra = seq!['|'];
            texto::lema_achar_desde(autor, barra, 0);
            if texto::achar(autor, barra) is Some {
                let j = texto::achar(autor, barra)->0;
                assert(autor.subrange(j, j + 1)[0] == autor[j]);
                assert(user.contains('|'));
            }
        },
    }
}

/// After any message from the server the history holds at most
/// `LIMITE_HISTORICO_LOCAL` lines, the last ones it had.
pub proof fn lei_historico_limitado(o: estado::Karu, p: ChatProtocol, n: estado::Karu, c: estado::Comando)
    requires
        estado::recebida_spec(o, p, n, c),
    ensures
        n.historico_chat@.len() <= estado::LIMITE_HISTORICO_LOCAL,
{
    let h = chat::vista_strings(n.historico_chat@);
    assert(h.len() == n.historico_chat@.len());
}

/// A chat message that carries an avatar leaves it as the avatar known for its author.
pub proof fn lei_pfp_de_chat(o: estado::Karu, n: estado::Karu, c: estado::Comando,
    user: String, msg: String, pfp: String, time: Option<String>)
    requires
        estado::recebida_spec(o, ChatProtocol::Chat { user, msg, pfp: Some(pfp), time }, n, c),
    ensures
        mapa_pfps(n.pfps@).contains_key(user@),
        mapa_pfps(n.pfps@)[user@] == pfp@,
{
    let um = seq![(user@, Some(pfp@))];
    assert(um.drop_last() =~= Seq::<(Seq<char>, Option<Seq<char>>)>::empty());
    assert(chat::vista_opcao(Some(pfp)) == Some(pfp@));
}

/// An avatar image loaded by `/pfp` becomes a data URL that decodes back to the file's bytes.
pub proof fn lei_pfp_ida_e_volta(caminho: Seq<char>, bytes: Seq<u8>)
    requires
        dados::data_url_de_imagem_spec(caminho, Ok(bytes)) is Ok,
    ensures
        dados::data_url_spec(dados::data_url_de_imagem_spec(caminho, Ok(bytes))->Ok_0) == Some(bytes),
{
    let ext = dados::extensao_caminho(caminho);
    dados::lema_mime_de_imagem(ext);
    let mime = dados::mime_spec(ext)->0;
    dados::lei_data_url(mime, bytes);
}

proof fn lema_remover_char(s: Seq<char>, c: char)
    ensures
        !markdown::remover_char(s, c).contains(c),
        forall|x: char| #[trigger] markdown::remover_char(s, c).contains(x) ==> s.contains(x),
    decreases s.len(),
{
    if s.len() > 0 {
        lema_remover_char(s.drop_last(), c);
        let r = markdown::remover_char(s.drop_last(), c);
        assert forall|x: char| #[trigger] markdown::remover_char(s, c).contains(x) implies s.contains(x) by {
            if markdown::remover_char(s, c).contains(x) {
                if r.contains(x) {
                    let i = choose|i: int| 0 <= i < r.len() && r[i] == x;
                    let j = choose|j: int| 0 <= j < s.drop_last().len() && s.drop_last()[j] == x;
                    assert(s[j] == x);
                } else {
                    let i = choose|i: int| 0 <= i < markdown::remover_char(s, c).len() && markdown::remover_char(s, c)[i] == x;
                    assert(x == s.last());
                    assert(s[s.len() - 1] == x);
                }
            }
        }
        if markdown::remover_char(s, c).contains(c) {
            let i = choose|i: int| 0 <= i < markdown::remover_char(s, c).len() && markdown::remover_char(s, c)[i] == c;
            if s.last() != c {
                if i < r.len() {
                    assert(r[i] == c);
                }
            }
        }
    }
}

/// Cleaned inline markdown holds no `*` and no backquote.
pub proof fn lei_limpar_sem_marcas(s: Seq<char>)
    ensures
        !markdown::limpar_spec(s).contains('*'),
        !markdown::limpar_spec(s).contains('`'),
{
    let a = markdown::remover_par(markdown::remover_par(s, '*'), '_');
    let b = markdown::remover_char(a, '*');
    lema_remover_char(a, '*');
    lema_remover_char(b, '`');
}

/// How many history lines a group stands for.
pub open spec fn peso(g: chat::GrupoSpec) -> nat {
    match g {
        chat::GrupoSpec::Sistema(_) => 1,
        chat::GrupoSpec::Mensagens(_, _, cs) => cs.len(),
    }
}

/// How many history lines groups stand for.
pub open spec fn total(gs: Seq<chat::GrupoSpec>) -> nat
    decreases gs.len(),
{
    if gs.len() == 0 {
        0
    } else {
        total(gs.drop_last()) + peso(gs.last())
    }
}

/// Grouping the history loses no line and adds none: the groups stand for
/// exactly as many lines as the history has.
pub proof fn lei_agrupar_conserva_linhas(linhas: Seq<Seq<char>>)
    ensures
        total(chat::agrupar_spec(linhas)) == linhas.len(),
    decreases linhas.len(),
{
    if linhas.len() > 0 {
        lei_agrupar_conserva_linhas(linhas.drop_last());
        let g = chat::agrupar_spec(linhas.drop_last());
        let r = chat::agrupar_spec(linhas);
        match chat::separar_spec(linhas.last()) {
            LinhaChatSpec::Sistema(m) => {
                assert(r.drop_last() =~= g);
            },
            LinhaChatSpec::Mensagem(a, h, c) => {
                if g.len() > 0 && r.len() == g.len() {
                    assert(r.drop_last() =~= g.drop_last());
                    assert(peso(r.last()) == peso(g.last()) + 1);
                } else {
                    assert(r.drop_last() =~= g);
                }
            },
        }
    }
}

/// No mark is left in the text of any classified line: headings, quotes,
/// items, numbered items (number and text) and plain text are all shown
/// without `*` and backquote.
pub proof fn lei_linha_markdown_sem_marcas(l: Seq<char>)
    ensures
        match markdown::classificar_spec(l) {
            markdown::LinhaMarkdownSpec::Titulo3(t) => !t.contains('*') && !t.contains('`'),
            markdown::LinhaMarkdownSpec::Titulo2(t) => !t.contains('*') && !t.contains('`'),
            markdown::LinhaMarkdownSpec::Titulo1(t) => !t.contains('*') && !t.contains('`'),
            markdown::LinhaMarkdownSpec::Citacao(t) => !t.contains('*') && !t.contains('`'),
            markdown::LinhaMarkdownSpec::Item(t) => !t.contains('*') && !t.contains('`'),
            markdown::LinhaMarkdownSpec::ItemNumerado(n, t) => !n.contains('*') && !n.contains('`')
                && !t.contains('*') && !t.contains('`'),
            markdown::LinhaMarkdownSpec::Texto(t) => !t.contains('*') && !t.contains('`'),
        },
{
    let a = texto::aparar(l);
    let prefixos = seq!["### "@, "## "@, "# "@, "> "@, "- "@, "* "@];
    assert forall|i: int| 0 <= i < 6 implies (#[trigger] texto::sem_prefixo(a, prefixos[i])) matches Some(r)
        ==> !markdown::limpar_spec(r).contains('*') && !markdown::limpar_spec(r).contains('`') by {
        if let Some(r) = texto::sem_prefixo(a, prefixos[i]) {
            lei_limpar_sem_marcas(r);
        }
    }
    assert(texto::sem_prefixo(a, prefixos[0]) == texto::sem_prefixo(a, "### "@));
    assert(texto::sem_prefixo(a, prefixos[1]) == texto::sem_prefixo(a, "## "@));
    assert(texto::sem_prefixo(a, prefixos[2]) == texto::sem_prefixo(a, "# "@));
    assert(texto::sem_prefixo(a, prefixos[3]) == texto::sem_prefixo(a, "> "@));
    assert(texto::sem_prefixo(a, prefixos[4]) == texto::sem_prefixo(a, "- "@));
    assert(texto::sem_prefixo(a, prefixos[5]) == texto::sem_prefixo(a, "* "@));
    lei_limpar_sem_marcas(a);
    if let Some((n, item)) = texto::dividir_em(a, ". "@) {
        lei_limpar_sem_marcas(item);
        if markdown::so_digitos(n) {
            if n.contains('*') {
                let i = choose|i: int| 0 <= i < n.len() && n[i] == '*';
            }
            if n.contains('`') {
                let i = choose|i: int| 0 <= i < n.len() && n[i] == '`';
            }
        }
    }
}

/// Submitting the form sends what was typed in it: a login request carries the
/// typed name and password and goes out only from the login form; a
/// registration carries the typed name, e-mail and password, goes out only
/// from the registration form, and never with an empty e-mail.
pub proof fn lei_envio_do_formulario(o: estado::Karu, n: estado::Karu, c: estado::Comando)
    requires
        estado::efeito(o, estado::Message::SubmeterAutenticacao, n, c),
    ensures
        c.enviar matches Some(ChatProtocol::Login { username, password }) ==> {
            &&& username@ == o.input_username@
            &&& password.0@ == o.input_password.0@
            &&& o.tela == estado::TelaAtual::Autenticacao(estado::SubTelaAuth::Login)
            &&& o.conectado
            &&& c.autenticacao
        },
        c.enviar matches Some(ChatProtocol::Register { username, email, password }) ==> {
            &&& username@ == o.input_username@
            &&& email@ == o.input_email@
            &&& password.0@ == o.input_password.0@
            &&& o.tela == estado::TelaAtual::Autenticacao(estado::SubTelaAuth::Cadastro)
            &&& o.conectado
            &&& email@.len() > 0
            &&& c.autenticacao
        },
        c.enviar is Some ==> (c.enviar matches Some(ChatProtocol::Login { .. }) || c.enviar matches Some(ChatProtocol::Register { .. })),
        c.enviar is Some ==> o.input_username@.len() > 0 && o.input_password.0@.len() > 0,
        n.input_username == o.input_username && n.input_password == o.input_password,
{
}

/// The avatar found is the first candidate that is present: when some
/// candidate is among the files, the result is that candidate, every earlier
/// one being absent; when none is, there is no result.
pub proof fn lei_primeiro_presente(candidatos: Seq<Seq<char>>, arquivos: Seq<Seq<char>>)
    ensures
        (exists|i: int| 0 <= i < candidatos.len() && arquivos.contains(candidatos[i])) ==> {
            exists|i: int| {
                &&& 0 <= i < candidatos.len()
                &&& dados::primeiro_presente(candidatos, arquivos) == Some(candidatos[i])
                &&& arquivos.contains(candidatos[i])
                &&& forall|j: int| 0 <= j < i ==> !arquivos.contains(#[trigger] candidatos[j])
            }
        },
        (forall|i: int| 0 <= i < candidatos.len() ==> !arquivos.contains(#[trigger] candidatos[i])) ==>
            dados::primeiro_presente(candidatos, arquivos) is None,
    decreases candidatos.len(),
{
    if candidatos.len() > 0 {
        let resto = candidatos.drop_first();
        lei_primeiro_presente(resto, arquivos);
        if arquivos.contains(candidatos[0]) {
            assert(dados::primeiro_presente(candidatos, arquivos) == Some(candidatos[0]));
        } else {
            if exists|i: int| 0 <= i < candidatos.len() && arquivos.contains(candidatos[i]) {
                let i = choose|i: int| 0 <= i < candidatos.len() && arquivos.contains(candidatos[i]);
                assert(resto[i - 1] == candidatos[i]);
                let k = choose|k: int| {
                    &&& 0 <= k < resto.len()
                    &&& dados::primeiro_presente(resto, arquivos) == Some(resto[k])
                    &&& arquivos.contains(resto[k])
                    &&& forall|j: int| 0 <= j < k ==> !arquivos.contains(#[trigger] resto[j])
                };
                assert(candidatos[k + 1] == resto[k]);
                assert forall|j: int| 0 <= j < k + 1 implies !arquivos.contains(#[trigger] candidatos[j]) by {
                    if j > 0 {
                        assert(candidatos[j] == resto[j - 1]);
                    }
                }
            }
            if forall|i: int| 0 <= i < candidatos.len() ==> !arquivos.contains(#[trigger] candidatos[i]) {
                assert forall|i: int| 0 <= i < resto.len() implies !arquivos.contains(#[trigger] resto[i]) by {
                    assert(resto[i] == candidatos[i + 1]);
                }
            }
        }
    }
}

proof fn lema_sem_quebra(s: Seq<char>)
    requires
        !s.contains('\n'),
    ensures
        texto::achar(s, "\n"@) is None,
{
    reveal_strlit("\n");
    texto::lema_achar_desde(s, "\n"@, 0);
    if texto::achar(s, "\n"@) is Some {
        let k = texto::achar(s, "\n"@)->0;
        assert(s.subrange(k, k + 1)[0] == s[k]);
        assert(s.contains('\n'));
    }
}

proof fn lema_cerca_crases()
    ensures
        markdown::cerca_spec("```"@) == Some((markdown::CercaCodigo::Crases, Seq::<char>::empty())),
{
    reveal_strlit("```");
    let c = "```"@;
    assert(texto::aparar_inicio(c) == c);
    assert(c.take(3) =~= c);
    assert(c.skip(3) =~= Seq::<char>::empty());
}

/// A line inside a code block is kept exactly as written, indentation
/// included: a message made of an opening fence, one line that is not a fence
/// and a closing fence is shown as one code block holding that line.
pub proof fn lei_bloco_de_codigo(l: Seq<char>)
    requires
        !l.contains('\n'),
        l.len() == 0 || l.last() != '\r',
        markdown::cerca_spec(l) is None,
    ensures
        markdown::blocos_spec("```\n"@ + l + "\n```"@) == seq![markdown::BlocoSpec::Codigo(l)],
{
    reveal_strlit("```\n");
    reveal_strlit("\n```");
    reveal_strlit("```");
    reveal_strlit("\n");
    let cerca = "```"@;
    let nl = "\n"@;
    let s = "```\n"@ + l + "\n```"@;
    // First line: the opening fence.
    assert(texto::ocorre_em(s, nl, 3)) by {
        assert(s.subrange(3, 4) =~= nl);
    }
    assert forall|j: int| 0 <= j < 3 implies !texto::ocorre_em(s, nl, j) by {
        assert(s.subrange(j, j + 1)[0] == s[j]);
    }
    texto::lema_achar_em(s, nl, 3, 0);
    assert(s.take(3) =~= cerca);
    assert(markdown::tirar_cr(s.take(3)) == cerca);
    let s1 = s.skip(4);
    assert(s1 =~= l + "\n```"@);
    // Second line: `l` itself.
    let k = l.len() as int;
    assert(texto::ocorre_em(s1, nl, k)) by {
        assert(s1.subrange(k, k + 1) =~= nl);
    }
    assert forall|j: int| 0 <= j < k implies !texto::ocorre_em(s1, nl, j) by {
        if texto::ocorre_em(s1, nl, j) {
            assert(s1.subrange(j, j + 1)[0] == s1[j]);
            assert(s1[j] == l[j]);
            assert(l.contains('\n'));
        }
    }
    texto::lema_achar_em(s1, nl, k, 0);
    assert(s1.take(k) =~= l);
    let s2 = s1.skip(k + 1);
    assert(s2 =~= cerca);
    // Last line: the closing fence.
    lema_sem_quebra(cerca);
    assert(markdown::linhas(s2) == seq![cerca]);
    assert(markdown::linhas(s1) == seq![l] + seq![cerca]);
    assert(markdown::linhas(s) == seq![cerca] + (seq![l] + seq![cerca]));
    let ls = seq![cerca, l, cerca];
    assert(markdown::linhas(s) =~= ls);
    lema_cerca_crases();
    // Reading the three lines.
    texto::lema_achar_desde(Seq::<char>::empty(), cerca, 0);
    let e0 = markdown::estado_inicial();
    let e1 = markdown::EstadoMd { em_codigo: true, codigo: seq![], cerca: Some(markdown::CercaCodigo::Crases) };
    assert(texto::aparar(Seq::<char>::empty()) =~= Seq::<char>::empty());
    assert(markdown::passo(e0, cerca) == (e1, Seq::<markdown::BlocoSpec>::empty()));
    let e2 = markdown::EstadoMd { em_codigo: true, codigo: l, cerca: Some(markdown::CercaCodigo::Crases) };
    assert(markdown::passo(e1, l) == (e2, Seq::<markdown::BlocoSpec>::empty()));
    let e3 = markdown::EstadoMd { em_codigo: false, codigo: seq![], cerca: None };
    assert(markdown::passo(e2, cerca) == (e3, seq![markdown::BlocoSpec::Codigo(l)]));
    let vazio = Seq::<markdown::BlocoSpec>::empty();
    let l0 = Seq::<Seq<char>>::empty();
    let l1 = seq![cerca];
    let l2 = seq![cerca, l];
    assert(l1.drop_last() =~= l0);
    assert(l1.last() == cerca);
    assert(l2.drop_last() =~= l1);
    assert(l2.last() == l);
    assert(ls.drop_last() =~= l2);
    assert(ls.last() == cerca);
    assert(markdown::processar(l0) == (e0, vazio));
    assert(vazio + vazio =~= vazio);
    assert(markdown::processar(l1) == (e1, vazio));
    assert(markdown::processar(l2) == (e2, vazio));
    assert(markdown::processar(ls) == (e3, vazio + seq![markdown::BlocoSpec::Codigo(l)]));
    assert(Seq::<markdown::BlocoSpec>::empty() + seq![markdown::BlocoSpec::Codigo(l)] =~= seq![markdown::BlocoSpec::Codigo(l)]);
}

/// The history line `l` is a message by `a` with content `c` (any time).
pub open spec fn mensagem_de(l: LinhaChatSpec, a: Seq<char>, c: Seq<char>) -> bool {
    match l {
        LinhaChatSpec::Mensagem(a2, _, c2) => a2 == a && c2 == c,
        LinhaChatSpec::Sistema(_) => false,
    }
}

/// Group `g` is made of the history lines from `i` on: a notice is the notice
/// line at `i`; a message group takes its author and time from the line at
/// `i`, and its contents, in order, from that line and the ones after it, all
/// messages by the same author.
pub open spec fn vem_de(h: Seq<Seq<char>>, g: chat::GrupoSpec, i: int) -> bool {
    match g {
        chat::GrupoSpec::Sistema(m) => 0 <= i < h.len() && chat::separar_spec(h[i]) == LinhaChatSpec::Sistema(m),
        chat::GrupoSpec::Mensagens(a, t, cs) => {
            &&& 0 <= i
            &&& cs.len() > 0
            &&& i + cs.len() <= h.len()
            &&& chat::separar_spec(h[i]) == LinhaChatSpec::Mensagem(a, t, cs[0])
            &&& forall|j: int| 1 <= j < cs.len() ==> #[trigger] mensagem_de(chat::separar_spec(h[i + j]), a, cs[j])
        },
    }
}

proof fn lema_vem_de_prefixo(h1: Seq<Seq<char>>, h: Seq<Seq<char>>, g: chat::GrupoSpec, i: int)
    requires
        h1.len() <= h.len(),
        forall|x: int| 0 <= x < h1.len() ==> h[x] == h1[x],
        vem_de(h1, g, i),
    ensures
        vem_de(h, g, i),
{
    match g {
        chat::GrupoSpec::Sistema(m) => {
            assert(h[i] == h1[i]);
        },
        chat::GrupoSpec::Mensagens(a, t, cs) => {
            assert(h[i] == h1[i]);
            assert forall|j: int| 1 <= j < cs.len() implies #[trigger] mensagem_de(chat::separar_spec(h[i + j]), a, cs[j]) by {
                assert(h[i + j] == h1[i + j]);
                assert(mensagem_de(chat::separar_spec(h1[i + j]), a, cs[j]));
            }
        },
    }
}

/// Every group comes from the history line that starts it, and the lines
/// where the groups start are returned: a notice group is that notice; a
/// message group carries the author and the time of its first line, and its
/// contents are those of that line and the following messages by the same
/// author, in order. The last group runs to the end of the history.
pub proof fn lei_grupos_de_origem(h: Seq<Seq<char>>) -> (ini: Seq<int>)
    ensures
        ini.len() == chat::agrupar_spec(h).len(),
        forall|k: int| 0 <= k < ini.len() ==> vem_de(h, #[trigger] chat::agrupar_spec(h)[k], ini[k]),
        ini.len() > 0 ==> ini.last() + peso(chat::agrupar_spec(h).last()) == h.len(),
    decreases h.len(),
{
    if h.len() == 0 {
        Seq::<int>::empty()
    } else {
        let h1 = h.drop_last();
        let ini1 = lei_grupos_de_origem(h1);
        let g1 = chat::agrupar_spec(h1);
        let g = chat::agrupar_spec(h);
        let n = h1.len() as int;
        assert(h[n] == h.last());
        assert forall|k: int| 0 <= k < ini1.len() implies vem_de(h, #[trigger] g1[k], ini1[k]) by {
            lema_vem_de_prefixo(h1, h, g1[k], ini1[k]);
        }
        match chat::separar_spec(h.last()) {
            LinhaChatSpec::Sistema(m) => {
                let ini = ini1.push(n);
                assert forall|k: int| 0 <= k < ini.len() implies vem_de(h, #[trigger] g[k], ini[k]) by {
                    if k < ini1.len() {
                        assert(g[k] == g1[k]);
                    }
                }
                ini
            },
            LinhaChatSpec::Mensagem(a, t, c) => {
                if g1.len() > 0 && g.len() == g1.len() {
                    let last = g1.len() - 1;
                    let (a2, t2, cs) = match g1.last() {
                        chat::GrupoSpec::Mensagens(a2, t2, cs) => (a2, t2, cs),
                        chat::GrupoSpec::Sistema(_) => (a, t, seq![c]),
                    };
                    assert(g1.last() is Mensagens);
                    assert(a2 == a);
                    assert(g[last] == chat::GrupoSpec::Mensagens(a, t2, cs.push(c)));
                    let i = ini1[last];
                    assert(vem_de(h, g1[last], i));
                    assert(i + cs.len() == n);
                    assert(vem_de(h, g[last], i)) by {
                        let cs2 = cs.push(c);
                        assert(cs2[0] == cs[0]);
                        assert forall|j: int| 1 <= j < cs2.len() implies #[trigger] mensagem_de(chat::separar_spec(h[i + j]), a, cs2[j]) by {
                            if j < cs.len() {
                                assert(cs2[j] == cs[j]);
                                assert(mensagem_de(chat::separar_spec(h[i + j]), a, cs[j]));
                            } else {
                                assert(i + j == n);
                            }
                        }
                    }
                    assert forall|k: int| 0 <= k < ini1.len() implies vem_de(h, #[trigger] g[k], ini1[k]) by {
                        if k < last {
                            assert(g[k] == g1[k]);
                        }
                    }
                    ini1
                } else {
                    let ini = ini1.push(n);
                    assert(g =~= g1.push(chat::GrupoSpec::Mensagens(a, t, seq![c])));
                    assert forall|k: int| 0 <= k < ini.len() implies vem_de(h, #[trigger] g[k], ini[k]) by {
                        if k < ini1.len() {
                            assert(g[k] == g1[k]);
                        } else {
                            assert(g[k] == chat::GrupoSpec::Mensagens(a, t, seq![c]));
                        }
                    }
                    ini
                }
            },
        }
    }
}

} // verus!
