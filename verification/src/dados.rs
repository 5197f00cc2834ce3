use vstd::prelude::*;
use crate::base64;
use crate::base64::{base64_decode, base64_encode};
use crate::texto;
use crate::texto::{chars_de, trecho, achar_exec, comeca_com_exec, termina_com_exec, iguais_exec,
    minusculas_ascii_vec, aparar_vec, string_de};
use vstd::string::{StrSliceExecFns, StringExecFns, StringSliceAdditionalSpecFns};

verus! {

broadcast use vstd::string::group_string_axioms;

/// The extension of a path as `std::path::Path::extension` reads it: the part of
/// the file name after its last `.`, if the name has one that does not start it.
pub uninterp spec fn extensao_caminho(caminho: Seq<char>) -> Option<Seq<char>>;

/// Calls `std::path::Path::extension` on the path and turns the result into a `String`.
/// Trusted: the result is `extensao_caminho` of the path; a `&str` path is valid
/// UTF-8, so the conversion loses nothing.
#[verifier::external_body]
fn extensao(caminho: &str) -> (r: Option<String>)
    ensures
        match r {
            Some(e) => extensao_caminho(caminho@) == Some(e@),
            None => extensao_caminho(caminho@) is None,
        },
{
    match std::path::Path::new(caminho).extension() {
        Some(e) => Some(e.to_string_lossy().into_owned()),
        None => None,
    }
}

/// The image MIME type that goes with a file extension, compared without
/// regard to ASCII case: png, jpg/jpeg and webp.
pub open spec fn mime_spec(ext: Option<Seq<char>>) -> Option<Seq<char>> {
    match ext {
        Some(e) => {
            let m = texto::minusculas_ascii(e);
            if m == "png"@ {
                Some("image/png"@)
            } else if m == "jpg"@ || m == "jpeg"@ {
                Some("image/jpeg"@)
            } else if m == "webp"@ {
                Some("image/webp"@)
            } else {
                None
            }
        },
        None => None,
    }
}

/// The MIME type for an extension as `extensao` gives it.
pub fn mime_de_extensao(ext: Option<&str>) -> (r: Option<&'static str>)
    ensures
        match r {
            Some(m) => mime_spec(match ext { Some(e) => Some(e@), None => None }) == Some(m@),
            None => mime_spec(match ext { Some(e) => Some(e@), None => None }) is None,
        },
{
    match ext {
        None => None,
        Some(e) => {
            let m = minusculas_ascii_vec(&chars_de(e));
            if iguais_exec(&m, &chars_de("png")) {
                Some("image/png")
            } else if iguais_exec(&m, &chars_de("jpg")) || iguais_exec(&m, &chars_de("jpeg")) {
                Some("image/jpeg")
            } else if iguais_exec(&m, &chars_de("webp")) {
                Some("image/webp")
            } else {
                None
            }
        },
    }
}

/// The MIME type of an image file, chosen by its extension.
pub fn mime_imagem(caminho: &str) -> (r: Option<&'static str>)
    ensures
        match r {
            Some(m) => mime_spec(extensao_caminho(caminho@)) == Some(m@),
            None => mime_spec(extensao_caminho(caminho@)) is None,
        },
{
    let ext = extensao(caminho);
    match ext {
        Some(e) => mime_de_extensao(Some(e.as_str())),
        None => mime_de_extensao(None),
    }
}


/// The path `std::path::Path::join` builds from a base and a file name (what
/// the separator is, and when the file name replaces the base, are the
/// platform's rules).
pub uninterp spec fn caminho_juntado(base: Seq<char>, arquivo: Seq<char>) -> Seq<char>;

/// Calls `std::path::Path::join` and turns the joined path into a `String`.
/// Trusted: the result is `caminho_juntado` of the base and the file name; both
/// are UTF-8, so the conversion loses nothing.
#[verifier::external_body]
fn juntar_caminho(base: &str, arquivo: &str) -> (r: String)
    ensures
        r@ == caminho_juntado(base@, arquivo@),
{
    std::path::Path::new(base).join(arquivo).to_string_lossy().into_owned()
}

/// The folder avatars are kept in.
pub open spec fn pasta_pfp() -> Seq<char> {
    "pfps"@
}

/// The file for a user's avatar with a given extension: `<nome>.<ext>`
/// joined to the avatar folder.
pub open spec fn alvo_pfp(nome: Seq<char>, ext: Seq<char>) -> Seq<char> {
    caminho_juntado(pasta_pfp(), nome + "."@ + ext)
}

/// The avatar files to look for, in order, for a user name: none when the
/// trimmed name is empty, else png, jpg, jpeg and webp.
pub open spec fn candidatos_spec(usuario: Seq<char>) -> Seq<Seq<char>> {
    let nome = texto::aparar(usuario);
    if nome.len() == 0 {
        seq![]
    } else {
        seq![alvo_pfp(nome, "png"@), alvo_pfp(nome, "jpg"@), alvo_pfp(nome, "jpeg"@), alvo_pfp(nome, "webp"@)]
    }
}

/// The first of `candidatos` that is in `arquivos`.
pub open spec fn primeiro_presente(candidatos: Seq<Seq<char>>, arquivos: Seq<Seq<char>>) -> Option<Seq<char>>
    decreases candidatos.len(),
{
    if candidatos.len() == 0 {
        None
    } else if arquivos.contains(candidatos[0]) {
        Some(candidatos[0])
    } else {
        primeiro_presente(candidatos.drop_first(), arquivos)
    }
}

fn alvo_pfp_exec(nome: &Vec<char>, ext: &str) -> (r: String)
    ensures
        r@ == alvo_pfp(nome@, ext@),
{
    let mut arquivo = string_de(nome);
    arquivo.append(".");
    arquivo.append(ext);
    juntar_caminho("pfps", arquivo.as_str())
}

/// The avatar files to look for for a user, in the order they are tried.
pub fn candidatos_pfp(usuario: &str) -> (r: Vec<String>)
    ensures
        crate::chat::vista_strings(r@) == candidatos_spec(usuario@),
{
    let nome = aparar_vec(&chars_de(usuario));
    let mut r: Vec<String> = Vec::new();
    if nome.len() == 0 {
        assert(crate::chat::vista_strings(r@) =~= candidatos_spec(usuario@));
        return r;
    }
    r.push(alvo_pfp_exec(&nome, "png"));
    r.push(alvo_pfp_exec(&nome, "jpg"));
    r.push(alvo_pfp_exec(&nome, "jpeg"));
    r.push(alvo_pfp_exec(&nome, "webp"));
    assert(crate::chat::vista_strings(r@) =~= candidatos_spec(usuario@));
    r
}

/// The avatar file of a user: the first candidate (see `candidatos_pfp`)
/// among `arquivos`, the candidates found to be regular files.
pub fn caminho_pfp(usuario: &str, arquivos: &Vec<String>) -> (r: Option<String>)
    ensures
        match r {
            Some(c) => primeiro_presente(candidatos_spec(usuario@), crate::chat::vista_strings(arquivos@)) == Some(c@),
            None => primeiro_presente(candidatos_spec(usuario@), crate::chat::vista_strings(arquivos@)) is None,
        },
{
    let candidatos = candidatos_pfp(usuario);
    let ghost cs = crate::chat::vista_strings(candidatos@);
    let ghost arqs = crate::chat::vista_strings(arquivos@);
    let mut i: usize = 0;
    assert(cs.skip(0) =~= cs);
    while i < candidatos.len()
        invariant
            i <= candidatos@.len(),
            cs == crate::chat::vista_strings(candidatos@),
            arqs == crate::chat::vista_strings(arquivos@),
            cs == candidatos_spec(usuario@),
            primeiro_presente(cs, arqs) == primeiro_presente(cs.skip(i as int), arqs),
        decreases candidatos@.len() - i,
    {
        let mut j: usize = 0;
        let mut achou = false;
        while j < arquivos.len()
            invariant
                j <= arquivos@.len(),
                i < candidatos@.len(),
                arqs == crate::chat::vista_strings(arquivos@),
                achou == exists|t: int| 0 <= t < j && arqs[t] == candidatos@[i as int]@,
            decreases arquivos@.len() - j,
        {
            assert(arqs[j as int] == arquivos@[j as int]@);
            if arquivos[j] == candidatos[i] {
                achou = true;
            }
            assert(achou == exists|t: int| 0 <= t < j + 1 && arqs[t] == candidatos@[i as int]@) by {
                if achou && !(exists|t: int| 0 <= t < j && arqs[t] == candidatos@[i as int]@) {
                    assert(arqs[j as int] == candidatos@[i as int]@);
                }
            }
            j = j + 1;
        }
        let ghost cauda = cs.skip(i as int);
        assert(cauda[0] == candidatos@[i as int]@);
        if achou {
            proof {
                let t = choose|t: int| 0 <= t < arquivos@.len() && arqs[t] == candidatos@[i as int]@;
                assert(arqs.contains(cauda[0]));
            }
            return Some(candidatos[i].clone());
        }
        assert(!arqs.contains(cauda[0]));
        assert(cauda.drop_first() =~= cs.skip(i + 1));
        i = i + 1;
    }
    None
}

/// The bytes of an image data URL: the text before the first `,` must start
/// with `data:image/` and end with `;base64`, and the text after it is base64.
pub open spec fn data_url_spec(url: Seq<char>) -> Option<Seq<u8>> {
    match texto::dividir_em(url, ","@) {
        Some((cabecalho, dados)) => if texto::comeca_com(cabecalho, "data:image/"@) && texto::termina_com(cabecalho, ";base64"@) {
            base64::decodificar_spec(vstd::utf8::encode_utf8(dados))
        } else {
            None
        },
        None => None,
    }
}

/// Decodes the image bytes held by a `data:image/...;base64,` URL.
pub fn decodificar_data_url_imagem(data_url: &str) -> (r: Option<Vec<u8>>)
    ensures
        match r {
            Some(b) => data_url_spec(data_url@) == Some(b@),
            None => data_url_spec(data_url@) is None,
        },
{
    let v = chars_de(data_url);
    let n = v.len();
    let virgula = chars_de(",");
    proof {
        reveal_strlit(",");
    }
    match achar_exec(&v, &virgula) {
        None => None,
        Some(k) => {
            proof {
                texto::lema_achar_desde(v@, virgula@, 0);
            }
            let cabecalho = trecho(&v, 0, k);
            assert(cabecalho@ =~= v@.take(k as int));
            if !comeca_com_exec(&cabecalho, &chars_de("data:image/")) || !termina_com_exec(&cabecalho, &chars_de(";base64")) {
                return None;
            }
            let dados = data_url.substring_char(k + 1, n);
            assert(dados@ =~= v@.skip(k + 1));
            base64_decode(dados)
        },
    }
}


/// The data URL of bytes of a given MIME type.
pub open spec fn montar_data_url(mime: Seq<char>, bytes: Seq<u8>) -> Seq<char> {
    "data:"@ + mime + ";base64,"@ + base64::codificar(bytes)
}

/// The largest avatar image accepted, in bytes.
pub const LIMITE_PFP: usize = 1_000_000;

/// What loading an avatar image gives: an error when the extension is not one
/// of the image types, when the file could not be read, or when it is over
/// `LIMITE_PFP` bytes; else the data URL of its bytes.
pub open spec fn data_url_de_imagem_spec(caminho: Seq<char>, leitura: Result<Seq<u8>, Seq<char>>) -> Result<Seq<char>, Seq<char>> {
    match mime_spec(extensao_caminho(caminho)) {
        None => Err("Use uma imagem .png, .jpg, .jpeg ou .webp para a PFP."@),
        Some(mime) => match leitura {
            Err(erro) => Err("Não consegui ler a imagem: "@ + erro),
            Ok(bytes) => if bytes.len() > LIMITE_PFP {
                Err("A imagem é grande demais. Use uma PFP com até 1 MB."@)
            } else {
                Ok(montar_data_url(mime, bytes))
            },
        },
    }
}

pub open spec fn vista_leitura(leitura: Result<Vec<u8>, String>) -> Result<Seq<u8>, Seq<char>> {
    match leitura {
        Ok(b) => Ok(b@),
        Err(e) => Err(e@),
    }
}

pub open spec fn vista_resultado(r: Result<String, String>) -> Result<Seq<char>, Seq<char>> {
    match r {
        Ok(s) => Ok(s@),
        Err(e) => Err(e@),
    }
}

/// Turns an avatar image into a data URL. `leitura` is what reading the file
/// at `caminho` gave: its bytes, or the error message.
pub fn imagem_para_data_url(caminho: &str, leitura: Result<Vec<u8>, String>) -> (r: Result<String, String>)
    ensures
        vista_resultado(r) == data_url_de_imagem_spec(caminho@, vista_leitura(leitura)),
{
    let mime = match mime_imagem(caminho) {
        Some(m) => m,
        None => return Err("Use uma imagem .png, .jpg, .jpeg ou .webp para a PFP.".to_owned()),
    };
    let bytes = match leitura {
        Ok(b) => b,
        Err(erro) => {
            let mut msg = "Não consegui ler a imagem: ".to_owned();
            msg.append(erro.as_str());
            return Err(msg);
        },
    };
    if bytes.len() > LIMITE_PFP {
        return Err("A imagem é grande demais. Use uma PFP com até 1 MB.".to_owned());
    }
    let mut url = "data:".to_owned();
    url.append(mime);
    url.append(";base64,");
    let codificado = base64_encode(bytes.as_slice());
    url.append(codificado.as_str());
    Ok(url)
}

/// The data URL of any bytes, for a MIME type that starts with `image/` and
/// holds no comma, decodes back to those bytes.
pub proof fn lei_data_url(mime: Seq<char>, bytes: Seq<u8>)
    requires
        texto::comeca_com(mime, "image/"@),
        !mime.contains(','),
    ensures
        data_url_spec(montar_data_url(mime, bytes)) == Some(bytes),
{
    reveal_strlit("data:");
    reveal_strlit(";base64,");
    reveal_strlit(",");
    reveal_strlit("data:image/");
    reveal_strlit(";base64");
    reveal_strlit("image/");
    let d = "data:"@;
    let b = ";base64,"@;
    let c = base64::codificar(bytes);
    let url = d + mime + b + c;
    let k: int = (d.len() + mime.len() + 7) as int;
    base64::lei_tamanho_codificado(bytes);
    assert(texto::ocorre_em(url, ","@, k)) by {
        assert(url.subrange(k, k + 1) =~= ","@);
    }
    assert forall|j: int| 0 <= j < k implies !texto::ocorre_em(url, ","@, j) by {
        if texto::ocorre_em(url, ","@, j) {
            assert(url.subrange(j, j + 1)[0] == url[j]);
            if j < d.len() {
                assert(url[j] == d[j]);
            } else if j < d.len() + mime.len() {
                assert(url[j] == mime[j - d.len()]);
            } else {
                assert(url[j] == b[j - d.len() - mime.len()]);
            }
        }
    }
    texto::lema_achar_em(url, ","@, k, 0);
    let cab = url.take(k);
    assert(url.skip(k + 1) =~= c);
    assert(cab.take(11) =~= "data:image/"@) by {
        let p = "image/"@;
        assert(mime.take(6) == p);
        assert forall|i: int| 0 <= i < 11 implies cab.take(11)[i] == "data:image/"@[i] by {
            if i < 5 {
                assert(cab[i] == d[i]);
            } else {
                assert(cab[i] == mime[i - 5]);
                assert(mime.take(6)[i - 5] == p[i - 5]);
            }
        }
    }
    assert(cab.skip(cab.len() - 7) =~= ";base64"@);
    base64::lei_decodificar_codificado(bytes);
}

/// The MIME types that `mime_spec` gives all start with `image/` and hold no comma.
pub proof fn lema_mime_de_imagem(ext: Option<Seq<char>>)
    ensures
        mime_spec(ext) matches Some(m) ==> texto::comeca_com(m, "image/"@) && !m.contains(','),
{
    reveal_strlit("image/png");
    reveal_strlit("image/jpeg");
    reveal_strlit("image/webp");
    reveal_strlit("image/");
    if let Some(m) = mime_spec(ext) {
        assert(m.take(6) =~= "image/"@);
        if m.contains(',') {
            let i = choose|i: int| 0 <= i < m.len() && m[i] == ',';
        }
    }
}

} // verus!
