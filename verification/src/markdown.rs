use vstd::prelude::*;
use crate::texto;
use crate::texto::{chars_de, trecho, string_de, aparar_vec, aparar_inicio_vec, sem_prefixo_exec,
    dividir_em_exec};

verus! {

broadcast use vstd::string::group_string_axioms;

/// `s` with every non-overlapping pair `cc` removed, scanning from the left
/// (`str::replace` of the two-character pattern by nothing).
pub open spec fn remover_par(s: Seq<char>, c: char) -> Seq<char>
    decreases s.len(),
{
    if s.len() < 2 {
        s
    } else if s[0] == c && s[1] == c {
        remover_par(s.skip(2), c)
    } else {
        seq![s[0]] + remover_par(s.skip(1), c)
    }
}

/// `s` with every `c` removed.
pub open spec fn remover_char(s: Seq<char>, c: char) -> Seq<char>
    decreases s.len(),
{
    if s.len() == 0 {
        s
    } else if s.last() == c {
        remover_char(s.drop_last(), c)
    } else {
        remover_char(s.drop_last(), c).push(s.last())
    }
}

/// Inline markdown cleaned for display: `**`, then `__`, then every `*`,
/// then every backquote removed, in that order.
pub open spec fn limpar_spec(s: Seq<char>) -> Seq<char> {
    remover_char(remover_char(remover_par(remover_par(s, '*'), '_'), '*'), '`')
}

fn remover_par_vec(v: &Vec<char>, c: char) -> (r: Vec<char>)
    ensures
        r@ == remover_par(v@, c),
{
    let n = v.len();
    let mut r: Vec<char> = Vec::new();
    let mut i: usize = 0;
    assert(v@.skip(0) =~= v@);
    while i < n
        invariant
            n == v@.len(),
            i <= n,
            remover_par(v@, c) == r@ + remover_par(v@.skip(i as int), c),
        decreases n - i,
    {
        let ghost cauda = v@.skip(i as int);
        if i + 1 < n && v[i] == c && v[i + 1] == c {
            assert(cauda.skip(2) =~= v@.skip(i + 2));
            i = i + 2;
        } else if i + 1 < n {
            let ghost antes = r@;
            r.push(v[i]);
            assert(cauda.skip(1) =~= v@.skip(i + 1));
            assert(r@ =~= antes + seq![cauda[0]]);
            assert(antes + (seq![cauda[0]] + remover_par(cauda.skip(1), c)) =~= r@ + remover_par(cauda.skip(1), c));
            i = i + 1;
        } else {
            let ghost antes = r@;
            r.push(v[i]);
            assert(cauda =~= seq![v@[i as int]]);
            assert(v@.skip(i + 1) =~= Seq::<char>::empty());
            assert(r@ + remover_par(v@.skip(i + 1), c) =~= antes + cauda);
            i = i + 1;
        }
    }
    assert(v@.skip(n as int) =~= Seq::<char>::empty());
    assert(r@ + Seq::<char>::empty() =~= r@);
    r
}

fn remover_char_vec(v: &Vec<char>, c: char) -> (r: Vec<char>)
    ensures
        r@ == remover_char(v@, c),
{
    let mut r: Vec<char> = Vec::new();
    let mut i: usize = 0;
    while i < v.len()
        invariant
            i <= v@.len(),
            r@ == remover_char(v@.take(i as int), c),
        decreases v@.len() - i,
    {
        assert(v@.take(i + 1).drop_last() =~= v@.take(i as int));
        if v[i] != c {
            r.push(v[i]);
        }
        i = i + 1;
    }
    assert(v@.take(v@.len() as int) =~= v@);
    r
}

fn limpar_vec(v: &Vec<char>) -> (r: Vec<char>)
    ensures
        r@ == limpar_spec(v@),
{
    let a = remover_par_vec(v, '*');
    let b = remover_par_vec(&a, '_');
    let c = remover_char_vec(&b, '*');
    remover_char_vec(&c, '`')
}

/// Removes inline markdown marks (`**`, `__`, `*`, backquote) from a text.
pub fn limpar_markdown_inline(texto: &str) -> (r: String)
    ensures
        r@ == limpar_spec(texto@),
{
    string_de(&limpar_vec(&chars_de(texto)))
}

/// The two fences that open and close a code block.
#[derive(Clone, Copy, Debug, PartialEq, Eq, Structural)]
pub enum CercaCodigo {
    /// Three backquotes.
    Crases,
    /// Three apostrophes.
    Aspas,
}

impl CercaCodigo {
    pub open spec fn texto_spec(self) -> Seq<char> {
        match self {
            CercaCodigo::Crases => "```"@,
            CercaCodigo::Aspas => "'''"@,
        }
    }

    /// The three characters of the fence.
    pub fn texto(&self) -> (r: &'static str)
        ensures
            r@ == self.texto_spec(),
    {
        match self {
            CercaCodigo::Crases => "```",
            CercaCodigo::Aspas => "'''",
        }
    }
}

/// A line that, after leading whitespace, starts with a fence: the fence and
/// what follows it.
pub open spec fn cerca_spec(linha: Seq<char>) -> Option<(CercaCodigo, Seq<char>)> {
    let a = texto::aparar_inicio(linha);
    match texto::sem_prefixo(a, "```"@) {
        Some(resto) => Some((CercaCodigo::Crases, resto)),
        None => match texto::sem_prefixo(a, "'''"@) {
            Some(resto) => Some((CercaCodigo::Aspas, resto)),
            None => None,
        },
    }
}

fn cerca_vec(v: &Vec<char>) -> (r: Option<(CercaCodigo, Vec<char>)>)
    ensures
        match r {
            Some((c, resto)) => cerca_spec(v@) == Some((c, resto@)),
            None => cerca_spec(v@) is None,
        },
{
    let a = aparar_inicio_vec(v);
    match sem_prefixo_exec(&a, &chars_de("```")) {
        Some(resto) => Some((CercaCodigo::Crases, resto)),
        None => match sem_prefixo_exec(&a, &chars_de("'''")) {
            Some(resto) => Some((CercaCodigo::Aspas, resto)),
            None => None,
        },
    }
}

/// Whether a line opens or closes a code block, and with what fence.
pub fn detectar_cerca_codigo(linha: &str) -> (r: Option<(CercaCodigo, String)>)
    ensures
        match r {
            Some((c, resto)) => cerca_spec(linha@) == Some((c, resto@)),
            None => cerca_spec(linha@) is None,
        },
{
    match cerca_vec(&chars_de(linha)) {
        Some((c, resto)) => Some((c, string_de(&resto))),
        None => None,
    }
}


/// How one line of a message is shown.
pub enum LinhaMarkdown {
    /// `### ` heading.
    Titulo3(String),
    /// `## ` heading.
    Titulo2(String),
    /// `# ` heading.
    Titulo1(String),
    /// `> ` quote.
    Citacao(String),
    /// `- ` or `* ` list item.
    Item(String),
    /// `N. ` list item: the digits as written and the item.
    ItemNumerado(String, String),
    /// Plain text.
    Texto(String),
}

/// The mathematical form of a `LinhaMarkdown`.
pub enum LinhaMarkdownSpec {
    Titulo3(Seq<char>),
    Titulo2(Seq<char>),
    Titulo1(Seq<char>),
    Citacao(Seq<char>),
    Item(Seq<char>),
    ItemNumerado(Seq<char>, Seq<char>),
    Texto(Seq<char>),
}

impl LinhaMarkdown {
    pub open spec fn vista(&self) -> LinhaMarkdownSpec {
        match *self {
            LinhaMarkdown::Titulo3(s) => LinhaMarkdownSpec::Titulo3(s@),
            LinhaMarkdown::Titulo2(s) => LinhaMarkdownSpec::Titulo2(s@),
            LinhaMarkdown::Titulo1(s) => LinhaMarkdownSpec::Titulo1(s@),
            LinhaMarkdown::Citacao(s) => LinhaMarkdownSpec::Citacao(s@),
            LinhaMarkdown::Item(s) => LinhaMarkdownSpec::Item(s@),
            LinhaMarkdown::ItemNumerado(n, s) => LinhaMarkdownSpec::ItemNumerado(n@, s@),
            LinhaMarkdown::Texto(s) => LinhaMarkdownSpec::Texto(s@),
        }
    }
}

/// Every character is an ASCII digit (true of the empty text).
pub open spec fn so_digitos(s: Seq<char>) -> bool {
    forall|i: int| 0 <= i < s.len() ==> '0' <= #[trigger] s[i] <= '9'
}

/// How a line is read, after trimming it: headings `### `, `## `, `# `, a
/// quote `> `, an item `- ` or `* `, a numbered item `N. ` (at the first `. `,
/// all before it digits), or plain text; the text shown is cleaned of inline
/// marks.
pub open spec fn classificar_spec(linha: Seq<char>) -> LinhaMarkdownSpec {
    let a = texto::aparar(linha);
    if texto::sem_prefixo(a, "### "@) is Some {
        LinhaMarkdownSpec::Titulo3(limpar_spec(texto::sem_prefixo(a, "### "@)->0))
    } else if texto::sem_prefixo(a, "## "@) is Some {
        LinhaMarkdownSpec::Titulo2(limpar_spec(texto::sem_prefixo(a, "## "@)->0))
    } else if texto::sem_prefixo(a, "# "@) is Some {
        LinhaMarkdownSpec::Titulo1(limpar_spec(texto::sem_prefixo(a, "# "@)->0))
    } else if texto::sem_prefixo(a, "> "@) is Some {
        LinhaMarkdownSpec::Citacao(limpar_spec(texto::sem_prefixo(a, "> "@)->0))
    } else if texto::sem_prefixo(a, "- "@) is Some {
        LinhaMarkdownSpec::Item(limpar_spec(texto::sem_prefixo(a, "- "@)->0))
    } else if texto::sem_prefixo(a, "* "@) is Some {
        LinhaMarkdownSpec::Item(limpar_spec(texto::sem_prefixo(a, "* "@)->0))
    } else {
        match texto::dividir_em(a, ". "@) {
            Some((numero, item)) => if so_digitos(numero) {
                LinhaMarkdownSpec::ItemNumerado(numero, limpar_spec(item))
            } else {
                LinhaMarkdownSpec::Texto(limpar_spec(a))
            },
            None => LinhaMarkdownSpec::Texto(limpar_spec(a)),
        }
    }
}

fn so_digitos_exec(v: &Vec<char>) -> (r: bool)
    ensures
        r == so_digitos(v@),
{
    let mut i: usize = 0;
    while i < v.len()
        invariant
            i <= v@.len(),
            forall|j: int| 0 <= j < i ==> '0' <= #[trigger] v@[j] <= '9',
        decreases v@.len() - i,
    {
        if !('0' <= v[i] && v[i] <= '9') {
            return false;
        }
        i = i + 1;
    }
    true
}

fn classificar_vec(linha: &Vec<char>) -> (r: LinhaMarkdown)
    ensures
        r.vista() == classificar_spec(linha@),
{
    let a = aparar_vec(linha);
    if let Some(t) = sem_prefixo_exec(&a, &chars_de("### ")) {
        return LinhaMarkdown::Titulo3(string_de(&limpar_vec(&t)));
    }
    if let Some(t) = sem_prefixo_exec(&a, &chars_de("## ")) {
        return LinhaMarkdown::Titulo2(string_de(&limpar_vec(&t)));
    }
    if let Some(t) = sem_prefixo_exec(&a, &chars_de("# ")) {
        return LinhaMarkdown::Titulo1(string_de(&limpar_vec(&t)));
    }
    if let Some(t) = sem_prefixo_exec(&a, &chars_de("> ")) {
        return LinhaMarkdown::Citacao(string_de(&limpar_vec(&t)));
    }
    if let Some(t) = sem_prefixo_exec(&a, &chars_de("- ")) {
        return LinhaMarkdown::Item(string_de(&limpar_vec(&t)));
    }
    if let Some(t) = sem_prefixo_exec(&a, &chars_de("* ")) {
        return LinhaMarkdown::Item(string_de(&limpar_vec(&t)));
    }
    let ponto = chars_de(". ");
    proof {
        reveal_strlit(". ");
    }
    if let Some((numero, item)) = dividir_em_exec(&a, &ponto) {
        if so_digitos_exec(&numero) {
            return LinhaMarkdown::ItemNumerado(string_de(&numero), string_de(&limpar_vec(&item)));
        }
    }
    LinhaMarkdown::Texto(string_de(&limpar_vec(&a)))
}

/// How a line of a message is shown: heading, quote, item, numbered item or text.
pub fn classificar_linha_markdown(linha: &str) -> (r: LinhaMarkdown)
    ensures
        r.vista() == classificar_spec(linha@),
{
    classificar_vec(&chars_de(linha))
}

/// A line without the `\r` of a `\r\n` ending.
pub open spec fn tirar_cr(l: Seq<char>) -> Seq<char> {
    if l.len() > 0 && l.last() == '\r' {
        l.drop_last()
    } else {
        l
    }
}

/// The lines of a text as `str::lines` gives them: split at `\n`, a `\r`
/// right before the `\n` dropped, and no empty last line after a final `\n`.
pub open spec fn linhas(s: Seq<char>) -> Seq<Seq<char>>
    decreases s.len(),
{
    if s.len() == 0 {
        seq![]
    } else {
        match texto::achar(s, "\n"@) {
            None => seq![s],
            Some(i) => {
                if 0 <= i < s.len() {
                    seq![tirar_cr(s.take(i))] + linhas(s.skip(i + 1))
                } else {
                    seq![s]
                }
            },
        }
    }
}

/// One block of a rendered message.
pub enum BlocoMarkdown {
    /// A code block and its text.
    Codigo(String),
    /// A blank line.
    Espaco,
    /// Any other line.
    Linha(LinhaMarkdown),
}

/// The mathematical form of a `BlocoMarkdown`.
pub enum BlocoSpec {
    Codigo(Seq<char>),
    Espaco,
    Linha(LinhaMarkdownSpec),
}

impl BlocoMarkdown {
    pub open spec fn vista(&self) -> BlocoSpec {
        match *self {
            BlocoMarkdown::Codigo(s) => BlocoSpec::Codigo(s@),
            BlocoMarkdown::Espaco => BlocoSpec::Espaco,
            BlocoMarkdown::Linha(l) => BlocoSpec::Linha(l.vista()),
        }
    }
}

pub open spec fn vista_blocos(v: Seq<BlocoMarkdown>) -> Seq<BlocoSpec> {
    v.map_values(|b: BlocoMarkdown| b.vista())
}

/// Where the reader of a message stands: inside a code block (with the fence
/// that opened it and the code gathered so far) or not.
pub struct EstadoMd {
    pub em_codigo: bool,
    pub codigo: Seq<char>,
    pub cerca: Option<CercaCodigo>,
}

pub open spec fn estado_inicial() -> EstadoMd {
    EstadoMd { em_codigo: false, codigo: seq![], cerca: None }
}

/// A code line added to the code gathered so far.
pub open spec fn juntar_codigo(codigo: Seq<char>, linha: Seq<char>) -> Seq<char> {
    if codigo.len() == 0 {
        linha
    } else {
        codigo + "\n"@ + linha
    }
}

/// One line read: the new state and the blocks it completes. A fence equal to
/// the open one closes the block; a fence outside a block opens one, unless
/// the same fence closes it on the line (inline code); the first line of a
/// `'''` block may carry code after the fence. Other lines inside a block are
/// code; outside, blank lines and text lines are blocks of their own.
pub open spec fn passo(e: EstadoMd, linha: Seq<char>) -> (EstadoMd, Seq<BlocoSpec>) {
    let fora = if texto::aparar(linha).len() == 0 {
        (e, seq![BlocoSpec::Espaco])
    } else {
        (e, seq![BlocoSpec::Linha(classificar_spec(linha))])
    };
    let dentro = (EstadoMd { em_codigo: true, codigo: juntar_codigo(e.codigo, linha), cerca: e.cerca }, Seq::<BlocoSpec>::empty());
    match cerca_spec(linha) {
        Some((cerca, resto)) => {
            if e.em_codigo && e.cerca == Some(cerca) {
                (EstadoMd { em_codigo: false, codigo: seq![], cerca: None }, seq![BlocoSpec::Codigo(e.codigo)])
            } else if !e.em_codigo {
                match texto::dividir_em(resto, cerca.texto_spec()) {
                    Some((em_linha, _)) => (e, seq![BlocoSpec::Codigo(texto::aparar(em_linha))]),
                    None => {
                        let primeira = texto::aparar(resto);
                        let codigo = if primeira.len() > 0 && cerca == CercaCodigo::Aspas { primeira } else { seq![] };
                        (EstadoMd { em_codigo: true, codigo: codigo, cerca: Some(cerca) }, Seq::<BlocoSpec>::empty())
                    },
                }
            } else {
                dentro
            }
        },
        None => if e.em_codigo { dentro } else { fora },
    }
}

/// The state after reading lines, and the blocks they completed.
pub open spec fn processar(ls: Seq<Seq<char>>) -> (EstadoMd, Seq<BlocoSpec>)
    decreases ls.len(),
{
    if ls.len() == 0 {
        (estado_inicial(), seq![])
    } else {
        let (e, bs) = processar(ls.drop_last());
        let (e2, novos) = passo(e, ls.last());
        (e2, bs + novos)
    }
}

/// The blocks of a message: those its lines complete, a code block left open
/// at the end, and for an empty message a single text line.
pub open spec fn blocos_spec(s: Seq<char>) -> Seq<BlocoSpec> {
    let ls = linhas(s);
    let (e, bs) = processar(ls);
    let bs2 = if e.em_codigo { bs.push(BlocoSpec::Codigo(e.codigo)) } else { bs };
    if ls.len() == 0 {
        bs2.push(BlocoSpec::Linha(classificar_spec(s)))
    } else {
        bs2
    }
}

pub open spec fn vista_vecs(v: Seq<Vec<char>>) -> Seq<Seq<char>> {
    v.map_values(|l: Vec<char>| l@)
}

fn tirar_cr_vec(l: Vec<char>) -> (r: Vec<char>)
    ensures
        r@ == tirar_cr(l@),
{
    let mut l = l;
    if l.len() > 0 && l[l.len() - 1] == '\r' {
        l.pop();
    }
    l
}

/// The lines of a text, as `str::lines` splits it.
fn linhas_vec(v: &Vec<char>) -> (r: Vec<Vec<char>>)
    ensures
        vista_vecs(r@) == linhas(v@),
{
    let n = v.len();
    let quebra = chars_de("\n");
    proof {
        reveal_strlit("\n");
    }
    let mut r: Vec<Vec<char>> = Vec::new();
    let mut pos: usize = 0;
    assert(v@.skip(0) =~= v@);
    while pos < n
        invariant
            n == v@.len(),
            pos <= n,
            quebra@ == "\n"@,
            quebra@.len() == 1,
            linhas(v@) == vista_vecs(r@) + linhas(v@.skip(pos as int)),
        decreases n - pos,
    {
        let resto = trecho(v, pos, n);
        assert(resto@ =~= v@.skip(pos as int));
        let ghost antes = vista_vecs(r@);
        match crate::texto::achar_exec(&resto, &quebra) {
            None => {
                r.push(resto);
                assert(vista_vecs(r@) =~= antes + seq![v@.skip(pos as int)]);
                assert(v@.skip(n as int) =~= Seq::<char>::empty());
                assert(vista_vecs(r@) + Seq::<Seq<char>>::empty() =~= vista_vecs(r@));
                pos = n;
            },
            Some(i) => {
                proof {
                    texto::lema_achar_desde(resto@, quebra@, 0);
                }
                let linha = tirar_cr_vec(trecho(&resto, 0, i));
                r.push(linha);
                assert(resto@.skip(i + 1) =~= v@.skip(pos + i + 1));
                assert(vista_vecs(r@) =~= antes + seq![tirar_cr(resto@.take(i as int))]);
                assert(antes + (seq![tirar_cr(resto@.take(i as int))] + linhas(v@.skip(pos + i + 1)))
                    =~= vista_vecs(r@) + linhas(v@.skip(pos + i + 1)));
                pos = pos + i + 1;
            },
        }
    }
    assert(v@.skip(n as int) =~= Seq::<char>::empty());
    assert(vista_vecs(r@) + Seq::<Seq<char>>::empty() =~= vista_vecs(r@));
    r
}

fn juntar_codigo_vec(codigo: &mut Vec<char>, linha: &Vec<char>)
    ensures
        final(codigo)@ == juntar_codigo(old(codigo)@, linha@),
{
    proof {
        reveal_strlit("\n");
    }
    let ghost inicial = codigo@;
    if codigo.len() > 0 {
        codigo.push('\n');
    }
    let ghost meio = codigo@;
    let mut i: usize = 0;
    while i < linha.len()
        invariant
            i <= linha@.len(),
            codigo@ == meio + linha@.take(i as int),
        decreases linha@.len() - i,
    {
        codigo.push(linha[i]);
        assert(meio + linha@.take(i + 1) =~= (meio + linha@.take(i as int)).push(linha@[i as int]));
        i = i + 1;
    }
    assert(linha@.take(linha@.len() as int) =~= linha@);
    assert(juntar_codigo(inicial, linha@) =~= meio + linha@);
}

/// The blocks a message is shown as: code blocks, blank lines and text lines.
pub fn blocos_markdown(conteudo: &str) -> (r: Vec<BlocoMarkdown>)
    ensures
        vista_blocos(r@) == blocos_spec(conteudo@),
{
    let v = chars_de(conteudo);
    let ls = linhas_vec(&v);
    let mut blocos: Vec<BlocoMarkdown> = Vec::new();
    let mut em_codigo = false;
    let mut codigo: Vec<char> = Vec::new();
    let mut cerca: Option<CercaCodigo> = None;
    let ghost todas = vista_vecs(ls@);
    proof {
        reveal_strlit("```");
        reveal_strlit("'''");
        assert(todas.take(0) =~= Seq::<Seq<char>>::empty());
        assert(vista_blocos(blocos@) =~= Seq::<BlocoSpec>::empty());
    }
    let mut i: usize = 0;
    while i < ls.len()
        invariant
            i <= ls@.len(),
            todas == vista_vecs(ls@),
            todas == linhas(v@),
            processar(todas.take(i as int)) == (EstadoMd { em_codigo: em_codigo, codigo: codigo@, cerca: cerca }, vista_blocos(blocos@)),
        decreases ls@.len() - i,
    {
        let linha = &ls[i];
        let ghost e = EstadoMd { em_codigo: em_codigo, codigo: codigo@, cerca: cerca };
        let ghost bs = vista_blocos(blocos@);
        let ghost esperado = passo(e, linha@);
        proof {
            assert(todas.take(i + 1).drop_last() =~= todas.take(i as int));
            assert(todas.take(i + 1).last() == linha@);
        }
        match cerca_vec(linha) {
            Some((c, resto)) => {
                let fecha = match cerca {
                    Some(x) => em_codigo && x == c,
                    None => false,
                };
                if fecha {
                    blocos.push(BlocoMarkdown::Codigo(string_de(&codigo)));
                    codigo = Vec::new();
                    em_codigo = false;
                    cerca = None;
                } else if !em_codigo {
                    let marca = chars_de(c.texto());
                    proof {
                        reveal_strlit("```");
                        reveal_strlit("'''");
                    }
                    match dividir_em_exec(&resto, &marca) {
                        Some((em_linha, _)) => {
                            blocos.push(BlocoMarkdown::Codigo(string_de(&aparar_vec(&em_linha))));
                        },
                        None => {
                            let primeira = aparar_vec(&resto);
                            codigo = if primeira.len() > 0 && c == CercaCodigo::Aspas {
                                primeira
                            } else {
                                Vec::new()
                            };
                            cerca = Some(c);
                            em_codigo = true;
                        },
                    }
                } else {
                    juntar_codigo_vec(&mut codigo, linha);
                }
            },
            None => {
                if em_codigo {
                    juntar_codigo_vec(&mut codigo, linha);
                } else if aparar_vec(linha).len() == 0 {
                    blocos.push(BlocoMarkdown::Espaco);
                } else {
                    blocos.push(BlocoMarkdown::Linha(classificar_vec(linha)));
                }
            },
        }
        assert(EstadoMd { em_codigo: em_codigo, codigo: codigo@, cerca: cerca } == esperado.0);
        assert(vista_blocos(blocos@) =~= bs + esperado.1);
        i = i + 1;
    }
    assert(todas.take(ls@.len() as int) =~= todas);
    if em_codigo {
        blocos.push(BlocoMarkdown::Codigo(string_de(&codigo)));
    }
    if ls.len() == 0 {
        blocos.push(BlocoMarkdown::Linha(classificar_vec(&v)));
    }
    assert(vista_blocos(blocos@) =~= blocos_spec(conteudo@));
    blocos
}

} // verus!
