//! The confirmation dialogs of operations and conversions: what they ask,
//! and the batch a confirmed answer starts.

use vstd::prelude::*;
use vstd::string::StringExecFns;
use crate::converters::backend::views;
use crate::converters::types::ConversionKind;
use crate::desktop::jobs::{label_of, operation_label, ConversionRequest, OperationKind, OperationRequest};
use crate::desktop::view::{rename_check_of, validate_rename_name};
use crate::path::{join, path_join};
use crate::text::{chars_of, decimal, extend_str, push_decimal, string_of, trim, trim_chars};

verus! {

/// What an operation dialog shows and the batch it will start.
#[derive(Debug)]
pub struct OperationDialog {
    pub title: &'static str,
    pub message: String,
    pub input: String,
    pub needs_input: bool,
    pub request: OperationRequest,
}

/// The counting message of a dialog over `n` items.
pub open spec fn dialog_message_of(kind: OperationKind, n: nat) -> Seq<char> {
    match kind {
        OperationKind::Copy => "Confirme a cópia de "@ + decimal(n)
            + " item(ns). Informe um diretório de destino absoluto. Destinos existentes não serão sobrescritos."@,
        OperationKind::Move => "Confirme a movimentação de "@ + decimal(n)
            + " item(ns). Informe um diretório de destino absoluto. Destinos existentes não serão sobrescritos."@,
        OperationKind::Delete => "Confirme a exclusão de "@ + decimal(n)
            + " item(ns). No Windows, os itens serão enviados à Lixeira; diretórios não vazios serão preservados."@,
        _ => "Informe um único nome novo. Separadores de caminho, ponto e ponto-ponto não são permitidos."@,
    }
}

pub open spec fn dialog_title_of(kind: OperationKind) -> Seq<char> {
    match kind {
        OperationKind::Copy => "Copiar itens"@,
        OperationKind::Move => "Mover itens"@,
        OperationKind::Rename => "Renomear item"@,
        OperationKind::Delete => "Excluir itens"@,
        OperationKind::CreateDirectory => "Nova pasta"@,
    }
}

fn counted(prefix: &str, n: usize, suffix: &str) -> (r: String)
    ensures
        r@ == prefix@ + decimal(n as nat) + suffix@,
{
    let mut out: Vec<char> = Vec::new();
    extend_str(&mut out, prefix);
    push_decimal(&mut out, n as u64);
    extend_str(&mut out, suffix);
    string_of(&out)
}

/// The dialog that confirms `kind` over the selected `sources`, with the
/// current folder `current`: none for an empty selection or for a new
/// folder (which has a dialog of its own).
pub fn operation_dialog(kind: OperationKind, sources: Vec<String>, current: &str) -> (r: Option<
    OperationDialog,
>)
    ensures
        (sources@.len() == 0 || kind == OperationKind::CreateDirectory) ==> r is None,
        !(sources@.len() == 0 || kind == OperationKind::CreateDirectory) ==> (r matches Some(d)
            && d.title@ == dialog_title_of(kind) && d.message@ == dialog_message_of(
            kind,
            sources@.len(),
        ) && d.input@ == (if kind == OperationKind::Rename {
            label_of(sources@[0]@)
        } else {
            Seq::<char>::empty()
        }) && d.needs_input == (kind != OperationKind::Delete) && d.request.kind == kind
            && views(d.request.sources@) == views(sources@) && d.request.destination_directory is None
            && (if kind == OperationKind::Rename {
            d.request.rename_name matches Some(n) && n@ == d.input@
        } else {
            d.request.rename_name is None
        }) && d.request.refresh_path@ == current@),
{
    if sources.len() == 0 {
        return None;
    }
    let n = sources.len();
    let (title, message, input, needs_input): (&'static str, String, String, bool) = match kind {
        OperationKind::Copy => (
            "Copiar itens",
            counted(
                "Confirme a cópia de ",
                n,
                " item(ns). Informe um diretório de destino absoluto. Destinos existentes não serão sobrescritos.",
            ),
            String::new(),
            true,
        ),
        OperationKind::Move => (
            "Mover itens",
            counted(
                "Confirme a movimentação de ",
                n,
                " item(ns). Informe um diretório de destino absoluto. Destinos existentes não serão sobrescritos.",
            ),
            String::new(),
            true,
        ),
        OperationKind::Rename => (
            "Renomear item",
            String::from_str(
                "Informe um único nome novo. Separadores de caminho, ponto e ponto-ponto não são permitidos.",
            ),
            operation_label(sources[0].as_str()),
            true,
        ),
        OperationKind::Delete => (
            "Excluir itens",
            counted(
                "Confirme a exclusão de ",
                n,
                " item(ns). No Windows, os itens serão enviados à Lixeira; diretórios não vazios serão preservados.",
            ),
            String::new(),
            false,
        ),
        OperationKind::CreateDirectory => {
            return None;
        },
    };
    let rename_name = if kind == OperationKind::Rename {
        Some(input.clone())
    } else {
        None
    };
    assert(input@ == (if kind == OperationKind::Rename {
        label_of(sources@[0]@)
    } else {
        Seq::<char>::empty()
    }));
    let request = OperationRequest {
        kind,
        sources,
        destination_directory: None,
        rename_name,
        refresh_path: String::from_str(current),
    };
    Some(OperationDialog { title, message, input, needs_input, request })
}

/// The dialog that asks for a new folder's name in `current`.
pub fn create_directory_dialog(current: &str) -> (r: OperationDialog)
    ensures
        r.title@ == "Nova pasta"@,
        r.message@
            == "Informe um único nome para a nova pasta. Separadores de caminho, ponto e ponto-ponto não são permitidos."@,
        r.input@ == Seq::<char>::empty(),
        r.needs_input,
        r.request.kind == OperationKind::CreateDirectory,
        r.request.sources@.len() == 0,
        r.request.destination_directory is None,
        r.request.rename_name is None,
        r.request.refresh_path@ == current@,
{
    OperationDialog {
        title: "Nova pasta",
        message: String::from_str(
            "Informe um único nome para a nova pasta. Separadores de caminho, ponto e ponto-ponto não são permitidos.",
        ),
        input: String::new(),
        needs_input: true,
        request: OperationRequest {
            kind: OperationKind::CreateDirectory,
            sources: Vec::new(),
            destination_directory: None,
            rename_name: None,
            refresh_path: String::from_str(current),
        },
    }
}

/// The message and batch of the dialog that confirms converting the
/// selected `sources` to `kind`; none for an empty selection.
pub fn conversion_dialog(kind: ConversionKind, sources: Vec<String>, current: &str) -> (r: Option<
    (String, ConversionRequest),
>)
    ensures
        sources@.len() == 0 ==> r is None,
        sources@.len() > 0 ==> (r matches Some((m, q)) && m@ == "Confirme a conversão de "@
            + decimal(sources@.len()) + " item(ns) para "@ + kind.label_of()
            + ". A saída será criada no mesmo diretório e nunca sobrescreverá um arquivo existente."@
            && q.kind == kind && views(q.sources@) == views(sources@) && q.refresh_path@
            == current@),
{
    if sources.len() == 0 {
        return None;
    }
    let mut out: Vec<char> = Vec::new();
    extend_str(&mut out, "Confirme a conversão de ");
    push_decimal(&mut out, sources.len() as u64);
    extend_str(&mut out, " item(ns) para ");
    extend_str(&mut out, kind.label());
    extend_str(
        &mut out,
        ". A saída será criada no mesmo diretório e nunca sobrescreverá um arquivo existente.",
    );
    let message = string_of(&out);
    Some((message, ConversionRequest { kind, sources, refresh_path: String::from_str(current) }))
}

/// Completes a confirmed batch with what was typed: a destination folder
/// for copies and moves, a checked name for renames and new folders. A
/// refused answer gives the message to show and the batch back.
pub fn confirm_operation(request: OperationRequest, input: &str) -> (r: Result<
    OperationRequest,
    (String, OperationRequest),
>)
    ensures
        request.kind == OperationKind::Copy || request.kind == OperationKind::Move ==> if trim(
            input@,
        ).len() == 0 {
            r matches Err((m, q)) && m@ == "Informe um diretório de destino."@ && q == request
        } else {
            r matches Ok(q) && q.kind == request.kind && q.sources == request.sources
                && (q.destination_directory matches Some(d) && d@ == trim(input@))
                && q.rename_name == request.rename_name && q.refresh_path == request.refresh_path
        },
        request.kind == OperationKind::Rename ==> match rename_check_of(input@) {
            Err(e) => r matches Err((m, q)) && m@ == e && q == request,
            Ok(name) => r matches Ok(q) && q.kind == request.kind && q.sources == request.sources
                && q.destination_directory == request.destination_directory && (
            q.rename_name matches Some(n) && n@ == name) && q.refresh_path == request.refresh_path,
        },
        request.kind == OperationKind::Delete ==> r == Ok::<
            OperationRequest,
            (String, OperationRequest),
        >(request),
        request.kind == OperationKind::CreateDirectory ==> match rename_check_of(input@) {
            Err(e) => r matches Err((m, q)) && m@ == e && q == request,
            Ok(name) => r matches Ok(q) && q.kind == request.kind && views(q.sources@) == seq![
                join(request.refresh_path@, name),
            ] && q.destination_directory == request.destination_directory && q.rename_name
                == request.rename_name && q.refresh_path == request.refresh_path,
        },
{
    let mut request = request;
    match request.kind {
        OperationKind::Copy | OperationKind::Move => {
            let c = chars_of(input);
            let t = trim_chars(&c);
            if t.len() == 0 {
                return Err((String::from_str("Informe um diretório de destino."), request));
            }
            request.destination_directory = Some(string_of(&t));
            Ok(request)
        },
        OperationKind::Rename => match validate_rename_name(input) {
            Ok(name) => {
                request.rename_name = Some(name);
                Ok(request)
            },
            Err(e) => Err((String::from_str(e), request)),
        },
        OperationKind::Delete => Ok(request),
        OperationKind::CreateDirectory => match validate_rename_name(input) {
            Ok(name) => {
                let base = chars_of(request.refresh_path.as_str());
                let n = chars_of(name.as_str());
                let target = path_join(&base, &n);
                let mut sources: Vec<String> = Vec::new();
                sources.push(string_of(&target));
                assert(views(sources@) =~= seq![join(request.refresh_path@, name@)]);
                request.sources = sources;
                Ok(request)
            },
            Err(e) => Err((String::from_str(e), request)),
        },
    }
}

} // verus!
