//! What a reader of descriptor documents computes around its input: the
//! text that goes to the parser, the bookkeeping of fields that the parser
//! passed over, and the joining of what several documents gave.

use vstd::prelude::*;
use crate::fields::{is_ignored, is_ignored_field};
use crate::interface::{Interface, InterfaceView, interface_views};
use crate::paths::{split_field_path, split_path};
use crate::policy::{MigrationSettings, Netconfig, NetconfigDhcp, NetconfigView};
use crate::search::{first_index, lemma_first_index_absent, lemma_first_index_found};
use crate::text::{opt_text, text_eq, texts};

verus! {

/// What reading gave: the interfaces, the two policies where they were
/// read, and a warning where a document held fields that nothing handles.
#[derive(Debug)]
pub struct InterfacesResult {
    pub interfaces: Vec<Interface>,
    pub netconfig: Option<Netconfig>,
    pub netconfig_dhcp: Option<NetconfigDhcp>,
    pub warning: Option<String>,
}

/// The mathematical view of an `InterfacesResult`.
pub struct InterfacesResultView {
    pub interfaces: Seq<InterfaceView>,
    pub netconfig: Option<NetconfigView>,
    pub netconfig_dhcp: Option<NetconfigDhcp>,
    pub warning: Option<Seq<char>>,
}

impl View for InterfacesResult {
    type V = InterfacesResultView;

    open spec fn view(&self) -> InterfacesResultView {
        InterfacesResultView {
            interfaces: interface_views(self.interfaces@),
            netconfig: match self.netconfig {
                Some(n) => Some(n@),
                None => None,
            },
            netconfig_dhcp: self.netconfig_dhcp,
            warning: opt_text(self.warning),
        }
    }
}

/// The views of a list of results, in order.
pub open spec fn result_views(v: Seq<InterfacesResult>) -> Seq<InterfacesResultView> {
    Seq::new(v.len(), |i: int| v[i]@)
}

/// The text that `regex` makes of `text` when every match of `pattern` is
/// replaced by the expansion of `replacement`, or nothing where `pattern`
/// is no regular expression.
pub uninterp spec fn regex_replaced(
    pattern: Seq<char>,
    text: Seq<char>,
    replacement: Seq<char>,
) -> Option<Seq<char>>;

/// Compiles `pattern` with `regex::Regex::new` and calls
/// `regex::Regex::replace_all` on `text`. Both are functions of their
/// arguments alone; nothing more is claimed of the text that comes back.
#[verifier::external_body]
fn regex_replace_all(pattern: &str, text: &str, replacement: &str) -> (r: Option<String>)
    ensures
        opt_text(r) == regex_replaced(pattern@, text@, replacement@),
{
    match regex::Regex::new(pattern) {
        Ok(re) => Some(re.replace_all(text, replacement).into_owned()),
        Err(_) => None,
    }
}

/// Matches the opening of a tag, start or end, whose name has a namespace
/// prefix: `<ipv4:static`, `</ipv4:static`.
pub open spec fn prefixed_tag_pattern() -> Seq<char> {
    "<([\\/]?)(\\w+):(\\w+)\\b"@
}

/// Writes the tag again with a hyphen in place of the colon.
pub open spec fn hyphenated_tag() -> Seq<char> {
    "<$1$2-$3"@
}

/// A document with the colon in each prefixed tag name replaced by a hyphen,
/// so that a parser without namespaces reads `ipv4:static` as one name.
pub open spec fn colons_replaced(text: Seq<char>) -> Seq<char> {
    replaced_or_same(text, regex_replaced(prefixed_tag_pattern(), text, hyphenated_tag()))
}

/// The replaced text where there is one, else the text itself.
pub open spec fn replaced_or_same(text: Seq<char>, replaced: Option<Seq<char>>) -> Seq<char> {
    match replaced {
        Some(t) => t,
        None => text,
    }
}

/// Picks the text that goes to the parser.
pub fn replaced_text(text: &str, replaced: Option<String>) -> (r: String)
    ensures
        r@ == replaced_or_same(text@, opt_text(replaced)),
{
    match replaced {
        Some(t) => t,
        None => text.to_owned(),
    }
}

/// Prepares a document for the parser: see `colons_replaced`.
pub fn replace_colons(text: &str) -> (r: String)
    ensures
        r@ == colons_replaced(text@),
{
    let replaced = regex_replace_all("<([\\/]?)(\\w+):(\\w+)\\b", text, "<$1$2-$3");
    replaced_text(text, replaced)
}

/// The warning of a document with unhandled fields.
pub open spec fn unhandled_fields_warning() -> Seq<char> {
    "Unhandled fields, use the `--continue-migration` flag to ignore"@
}

/// Whether a path names a field of one of `n` interfaces.
pub open spec fn path_ok(path: Seq<char>, n: nat) -> bool {
    split_path(path).is_some() && split_path(path).unwrap().0 < n
}

/// For each path, whether it names a field of one of `n` interfaces.
pub open spec fn paths_ok(paths: Seq<Seq<char>>, n: nat) -> Seq<bool> {
    Seq::new(paths.len(), |k: int| path_ok(paths[k], n))
}

/// The fields that the paths name below the interface at `position`, in the
/// order of the paths.
pub open spec fn fields_at(paths: Seq<Seq<char>>, position: nat) -> Seq<Seq<char>>
    decreases paths.len(),
{
    if paths.len() == 0 {
        seq![]
    } else {
        let rest = fields_at(paths.drop_last(), position);
        match split_path(paths.last()) {
            Some(parts) => if parts.0 == position {
                rest.push(parts.1)
            } else {
                rest
            },
            None => rest,
        }
    }
}

/// For each path, whether its field is one that nothing ignores on purpose.
pub open spec fn unhandled(paths: Seq<Seq<char>>) -> Seq<bool> {
    Seq::new(
        paths.len(),
        |k: int| split_path(paths[k]).is_some() && !is_ignored(split_path(paths[k]).unwrap().1),
    )
}

/// An interface with more unhandled fields noted.
pub open spec fn noting(raw: InterfaceView, fields: Seq<Seq<char>>) -> InterfaceView {
    InterfaceView { unhandled_fields: raw.unhandled_fields + fields, ..raw }
}

/// The result for one document: each interface notes the fields that the
/// paths name below it, and the warning is there exactly if one of those
/// fields is not ignored on purpose.
pub open spec fn document_result(
    interfaces: Seq<InterfaceView>,
    paths: Seq<Seq<char>>,
) -> InterfacesResultView {
    InterfacesResultView {
        interfaces: Seq::new(
            interfaces.len(),
            |i: int| noting(interfaces[i], fields_at(paths, i as nat)),
        ),
        netconfig: None,
        netconfig_dhcp: None,
        warning: if first_index(unhandled(paths), true).is_some() {
            Some(unhandled_fields_warning())
        } else {
            None
        },
    }
}

/// Takes every path apart. Nothing where one of them names no field of one
/// of `n` interfaces.
pub fn split_all(paths: &Vec<String>, n: usize) -> (r: Option<Vec<(usize, String)>>)
    ensures
        match r {
            Some(parts) => {
                &&& first_index(paths_ok(texts(paths@), n as nat), false).is_none()
                &&& parts.len() == paths.len()
                &&& forall|k: int|
                    0 <= k < parts.len() ==> split_path(#[trigger] paths[k]@) == Some(
                        (parts[k].0 as nat, parts[k].1@),
                    ) && parts[k].0 < n
            },
            None => first_index(paths_ok(texts(paths@), n as nat), false).is_some(),
        },
{
    let ghost flags = paths_ok(texts(paths@), n as nat);
    let mut parts: Vec<(usize, String)> = Vec::new();
    let mut k: usize = 0;
    while k < paths.len()
        invariant
            k <= paths.len(),
            flags == paths_ok(texts(paths@), n as nat),
            parts.len() == k,
            forall|j: int| 0 <= j < k ==> flags[j] != false,
            forall|j: int|
                0 <= j < k ==> split_path(#[trigger] paths[j]@) == Some(
                    (parts[j].0 as nat, parts[j].1@),
                ) && parts[j].0 < n,
        decreases paths.len() - k,
    {
        assert(texts(paths@)[k as int] == paths[k as int]@);
        match split_field_path(paths[k].as_str()) {
            Some(found) => {
                if found.0 >= n {
                    proof {
                        assert(flags[k as int] == false);
                        lemma_first_index_found(flags, false, k as int);
                    }
                    return None;
                }
                parts.push(found);
                assert(flags[k as int] == true);
            },
            None => {
                proof {
                    assert(flags[k as int] == false);
                    lemma_first_index_found(flags, false, k as int);
                }
                return None;
            },
        }
        k += 1;
    }
    proof {
        lemma_first_index_absent(flags, false);
    }
    Some(parts)
}

/// Notes with each interface the fields that the parser passed over. Every
/// path must name a field of one of the interfaces: where one does not,
/// nothing is returned.
pub fn with_unhandled_fields(interfaces: Vec<Interface>, paths: &Vec<String>) -> (r: Option<
    InterfacesResult,
>)
    ensures
        match r {
            Some(result) => first_index(
                paths_ok(texts(paths@), interfaces.len() as nat),
                false,
            ).is_none() && result@ == document_result(
                interface_views(interfaces@),
                texts(paths@),
            ),
            None => first_index(paths_ok(texts(paths@), interfaces.len() as nat), false).is_some(),
        },
{
    let n = interfaces.len();
    let parts = match split_all(paths, n) {
        Some(parts) => parts,
        None => {
            return None;
        },
    };
    let ghost before = interface_views(interfaces@);
    let ghost all = texts(paths@);
    let ghost flags = unhandled(all);
    let mut interfaces = interfaces;
    let mut any = false;
    let mut k: usize = 0;
    assert(all.take(0).len() == 0);
    while k < parts.len()
        invariant
            k <= parts.len(),
            parts.len() == paths.len(),
            all == texts(paths@),
            flags == unhandled(all),
            interfaces.len() == n,
            before.len() == n,
            forall|j: int|
                0 <= j < parts.len() ==> split_path(#[trigger] paths[j]@) == Some(
                    (parts[j].0 as nat, parts[j].1@),
                ) && parts[j].0 < n,
            forall|i: int|
                0 <= i < n ==> (#[trigger] interfaces[i])@ == noting(
                    before[i],
                    fields_at(all.take(k as int), i as nat),
                ),
            any ==> first_index(flags, true).is_some(),
            !any ==> forall|j: int| 0 <= j < k ==> flags[j] != true,
        decreases parts.len() - k,
    {
        let position = parts[k].0;
        let field = parts[k].1.clone();
        let ghost prior = interface_views(interfaces@);
        proof {
            assert(all[k as int] == paths[k as int]@);
            assert(all.take(k as int + 1).drop_last() =~= all.take(k as int));
            assert(all.take(k as int + 1).last() == all[k as int]);
            assert(split_path(all[k as int]) == Some((position as nat, field@)));
        }
        if !is_ignored_field(field.as_str()) {
            proof {
                assert(flags[k as int] == true);
                if !any {
                    lemma_first_index_found(flags, true, k as int);
                }
            }
            any = true;
        }
        interfaces[position].unhandled_fields.push(field);
        proof {
            assert forall|i: int| 0 <= i < n implies (#[trigger] interfaces[i])@ == noting(
                before[i],
                fields_at(all.take(k as int + 1), i as nat),
            ) by {
                assert(prior[i] == noting(before[i], fields_at(all.take(k as int), i as nat)));
                if i == position {
                    assert(interfaces[i]@.unhandled_fields =~= prior[i].unhandled_fields.push(
                        field@,
                    ));
                    assert(interfaces[i]@.unhandled_fields =~= before[i].unhandled_fields
                        + fields_at(all.take(k as int + 1), i as nat));
                } else {
                    assert(interfaces[i]@ == prior[i]);
                }
            }
        }
        k += 1;
    }
    proof {
        assert(all.take(k as int) =~= all);
        if !any {
            lemma_first_index_absent(flags, true);
        }
    }
    let warning = if any {
        Some("Unhandled fields, use the `--continue-migration` flag to ignore".to_owned())
    } else {
        None
    };
    let result = InterfacesResult { interfaces, netconfig: None, netconfig_dhcp: None, warning };
    assert(result@.interfaces =~= document_result(before, all).interfaces);
    Some(result)
}

/// The interfaces of all results, in order.
pub open spec fn joined(results: Seq<InterfacesResultView>) -> Seq<InterfaceView>
    decreases results.len(),
{
    if results.len() == 0 {
        seq![]
    } else {
        joined(results.drop_last()) + results.last().interfaces
    }
}

/// For each result, whether it carries a warning.
pub open spec fn warned(results: Seq<InterfacesResultView>) -> Seq<bool> {
    Seq::new(results.len(), |i: int| results[i].warning.is_some())
}

/// The warning of the first result that carries one.
pub open spec fn first_warning(results: Seq<InterfacesResultView>) -> Option<Seq<char>> {
    match first_index(warned(results), true) {
        Some(k) => results[k].warning,
        None => None,
    }
}

/// Joins what the documents gave, one result for each document in the order
/// in which they were read: all interfaces in that order, the warning of the
/// first document that has one, and no policy.
pub fn read_files(results: Vec<InterfacesResult>) -> (r: InterfacesResult)
    ensures
        r@.interfaces == joined(result_views(results@)),
        r@.warning == first_warning(result_views(results@)),
        r@.netconfig.is_none(),
        r@.netconfig_dhcp.is_none(),
{
    let ghost all = result_views(results@);
    let ghost flags = warned(all);
    let total = results.len();
    let mut rest = results;
    let mut out = InterfacesResult {
        interfaces: Vec::new(),
        netconfig: None,
        netconfig_dhcp: None,
        warning: None,
    };
    let mut k: usize = 0;
    assert(out@.interfaces =~= joined(all.take(0)));
    assert(result_views(rest@) =~= all.skip(0));
    while k < total
        invariant
            k <= total,
            total == all.len(),
            flags == warned(all),
            result_views(rest@) == all.skip(k as int),
            out@.interfaces == joined(all.take(k as int)),
            out.netconfig.is_none(),
            out.netconfig_dhcp.is_none(),
            match out@.warning {
                Some(w) => first_warning(all) == Some(w),
                None => forall|j: int| 0 <= j < k ==> flags[j] != true,
            },
        decreases total - k,
    {
        let ghost remaining = result_views(rest@);
        let ghost prior = out@.interfaces;
        assert(remaining.len() == total - k);
        assert(remaining[0] == rest@[0]@);
        let ghost held = rest@;
        let mut next = rest.remove(0);
        proof {
            assert(next@ == all[k as int]);
            assert forall|j: int| 0 <= j < rest@.len() implies result_views(rest@)[j]
                == all.skip(k as int + 1)[j] by {
                assert(rest@[j] == held[j + 1]);
                assert(remaining[j + 1] == held[j + 1]@);
            }
            assert(result_views(rest@) =~= all.skip(k as int + 1));
            assert(all.take(k as int + 1).drop_last() =~= all.take(k as int));
            assert(all.take(k as int + 1).last() == all[k as int]);
        }
        let ghost added = interface_views(next.interfaces@);
        out.interfaces.append(&mut next.interfaces);
        assert(out@.interfaces =~= prior + added);
        if out.warning.is_none() && next.warning.is_some() {
            proof {
                assert(flags[k as int] == true);
                lemma_first_index_found(flags, true, k as int);
            }
            out.warning = next.warning;
        }
        assert(out@.warning.is_none() ==> flags[k as int] != true);
        k += 1;
    }
    proof {
        assert(all.take(k as int) =~= all);
        if out@.warning.is_none() {
            lemma_first_index_absent(flags, true);
        }
    }
    out
}

/// Whether the interfaces are to be read from standard input: the only path
/// given is `-`.
pub fn reads_standard_input(paths: &Vec<String>) -> (r: bool)
    ensures
        r == (paths.len() == 1 && paths[0]@ == "-"@),
{
    paths.len() == 1 && text_eq(paths[0].as_str(), "-")
}

/// Whether an interface is the loopback, which needs no migration.
pub open spec fn is_loopback_interface(raw: InterfaceView) -> bool {
    raw.name == "lo"@
}

/// The interfaces other than the loopback, in order.
pub open spec fn without_loopback(s: Seq<InterfaceView>) -> Seq<InterfaceView>
    decreases s.len(),
{
    if s.len() == 0 {
        seq![]
    } else {
        let rest = without_loopback(s.drop_last());
        if is_loopback_interface(s.last()) {
            rest
        } else {
            rest.push(s.last())
        }
    }
}

/// Drops every interface named `lo` and keeps the others in their order.
pub fn drop_loopback(interfaces: Vec<Interface>) -> (r: Vec<Interface>)
    ensures
        interface_views(r@) == without_loopback(interface_views(interfaces@)),
{
    let ghost all = interface_views(interfaces@);
    let total = interfaces.len();
    let mut rest = interfaces;
    let mut out: Vec<Interface> = Vec::new();
    let mut k: usize = 0;
    assert(interface_views(out@) =~= without_loopback(all.take(0)));
    assert(interface_views(rest@) =~= all.skip(0));
    while k < total
        invariant
            k <= total,
            total == all.len(),
            interface_views(rest@) == all.skip(k as int),
            interface_views(out@) == without_loopback(all.take(k as int)),
        decreases total - k,
    {
        let ghost remaining = interface_views(rest@);
        let ghost held = rest@;
        let ghost prior = interface_views(out@);
        assert(remaining.len() == total - k);
        assert(remaining[0] == held[0]@);
        let next = rest.remove(0);
        proof {
            assert(next@ == all[k as int]);
            assert forall|j: int| 0 <= j < rest@.len() implies interface_views(rest@)[j]
                == all.skip(k as int + 1)[j] by {
                assert(rest@[j] == held[j + 1]);
                assert(remaining[j + 1] == held[j + 1]@);
            }
            assert(interface_views(rest@) =~= all.skip(k as int + 1));
            assert(all.take(k as int + 1).drop_last() =~= all.take(k as int));
            assert(all.take(k as int + 1).last() == all[k as int]);
        }
        if !text_eq(next.name.as_str(), "lo") {
            out.push(next);
            assert(interface_views(out@) =~= prior.push(next@));
        }
        k += 1;
    }
    assert(all.take(k as int) =~= all);
    out
}

/// Why reading the policies failed.
#[derive(Debug)]
pub enum ReadError {
    /// The DNS policy at `path` could not be read.
    Netconfig { path: String, detail: String },
    /// The DNS policy at `path` was read with warnings, and the run is strict.
    NetconfigWarnings { path: String },
    /// The DHCP policy at `path` could not be read, and the run is strict.
    NetconfigDhcp { path: String, detail: String },
}

/// The mathematical view of a `ReadError`.
pub enum ReadErrorView {
    Netconfig { path: Seq<char>, detail: Seq<char> },
    NetconfigWarnings { path: Seq<char> },
    NetconfigDhcp { path: Seq<char>, detail: Seq<char> },
}

impl View for ReadError {
    type V = ReadErrorView;

    open spec fn view(&self) -> ReadErrorView {
        match self {
            ReadError::Netconfig { path, detail } => ReadErrorView::Netconfig {
                path: path@,
                detail: detail@,
            },
            ReadError::NetconfigWarnings { path } => ReadErrorView::NetconfigWarnings {
                path: path@,
            },
            ReadError::NetconfigDhcp { path, detail } => ReadErrorView::NetconfigDhcp {
                path: path@,
                detail: detail@,
            },
        }
    }
}

/// The words that say how a strict run can be made to pass over a warning.
pub open spec fn continue_hint() -> Seq<char> {
    ", use the `--continue-migration` flag to ignore"@
}

/// The text of a failure to read the DHCP policy, without the hint.
pub open spec fn dhcp_read_failure(path: Seq<char>, detail: Seq<char>) -> Seq<char> {
    "Failed to read netconfig_dhcp at "@ + path + ": "@ + detail
}

impl ReadErrorView {
    /// The text of the error.
    pub open spec fn message(self) -> Seq<char> {
        match self {
            ReadErrorView::Netconfig { path, detail } => "Failed to read netconfig at "@ + path
                + ": "@ + detail,
            ReadErrorView::NetconfigWarnings { path } => path + " parse errors"@ + continue_hint(),
            ReadErrorView::NetconfigDhcp { path, detail } => dhcp_read_failure(path, detail)
                + continue_hint(),
        }
    }
}

/// The text of a failure to read the DHCP policy, without the hint.
pub fn dhcp_read_failure_message(path: &str, detail: &str) -> (r: String)
    ensures
        r@ == dhcp_read_failure(path@, detail@),
{
    let mut text = "Failed to read netconfig_dhcp at ".to_owned();
    text.append(path);
    text.append(": ");
    text.append(detail);
    text
}

impl ReadError {
    /// The text of the error.
    pub fn message(&self) -> (r: String)
        ensures
            r@ == self@.message(),
    {
        match self {
            ReadError::Netconfig { path, detail } => {
                let mut text = "Failed to read netconfig at ".to_owned();
                text.append(path.as_str());
                text.append(": ");
                text.append(detail.as_str());
                text
            },
            ReadError::NetconfigWarnings { path } => {
                let mut text = path.clone();
                text.append(" parse errors");
                text.append(", use the `--continue-migration` flag to ignore");
                text
            },
            ReadError::NetconfigDhcp { path, detail } => {
                let mut text = dhcp_read_failure_message(path.as_str(), detail.as_str());
                text.append(", use the `--continue-migration` flag to ignore");
                text
            },
        }
    }
}

/// Decides on the DNS policy as it was read: `Err` holds what the reader of
/// the document said where it could not read it, `Ok(None)` stands for a
/// document that is not there. A failure to read is an error in either mode;
/// a policy with warnings is one in a strict run. Anything else is passed on
/// as it came.
pub fn accept_netconfig(read: Result<Option<Netconfig>, String>, settings: &MigrationSettings) -> (r:
    Result<Option<Netconfig>, ReadError>)
    ensures
        match read {
            Err(detail) => r.is_err() && r->Err_0@ == (ReadErrorView::Netconfig {
                path: settings.netconfig_path@,
                detail: detail@,
            }),
            Ok(Some(policy)) => if policy.warnings.len() > 0 && !settings.continue_migration {
                r.is_err() && r->Err_0@ == (ReadErrorView::NetconfigWarnings {
                    path: settings.netconfig_path@,
                })
            } else {
                r == Ok::<Option<Netconfig>, ReadError>(Some(policy))
            },
            Ok(None) => r == Ok::<Option<Netconfig>, ReadError>(None),
        },
{
    match read {
        Err(detail) => Err(ReadError::Netconfig { path: settings.netconfig_path.clone(), detail }),
        Ok(Some(policy)) => {
            if policy.warnings.len() > 0 && !settings.continue_migration {
                Err(ReadError::NetconfigWarnings { path: settings.netconfig_path.clone() })
            } else {
                Ok(Some(policy))
            }
        },
        Ok(None) => Ok(None),
    }
}

/// Decides on the DHCP policy as it was read: `Err` holds what the reader of
/// the document said where it could not read it. A failure to read is an
/// error in a strict run; otherwise the run goes on without the policy, and
/// the text of the failure is handed back as a warning.
pub fn accept_netconfig_dhcp(read: Result<NetconfigDhcp, String>, settings: &MigrationSettings) -> (r:
    Result<(Option<NetconfigDhcp>, Option<String>), ReadError>)
    ensures
        match read {
            Ok(policy) => r.is_ok() && r->Ok_0.0 == Some(policy) && r->Ok_0.1.is_none(),
            Err(detail) => if settings.continue_migration {
                r.is_ok() && r->Ok_0.0.is_none() && opt_text(r->Ok_0.1) == Some(
                    dhcp_read_failure(settings.netconfig_dhcp_path@, detail@),
                )
            } else {
                r.is_err() && r->Err_0@ == (ReadErrorView::NetconfigDhcp {
                    path: settings.netconfig_dhcp_path@,
                    detail: detail@,
                })
            },
        },
{
    match read {
        Ok(policy) => Ok((Some(policy), None)),
        Err(detail) => {
            if settings.continue_migration {
                let warning = dhcp_read_failure_message(
                    settings.netconfig_dhcp_path.as_str(),
                    detail.as_str(),
                );
                Ok((None, Some(warning)))
            } else {
                Err(
                    ReadError::NetconfigDhcp {
                        path: settings.netconfig_dhcp_path.clone(),
                        detail,
                    },
                )
            }
        },
    }
}

} // verus!
