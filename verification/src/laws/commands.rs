//! Laws of the commands that log in and move models.

use vstd::prelude::*;

use crate::cmd::login;
use crate::cmd::login::{LoginArgs, LoginPlan};
use crate::cmd::pull;
use crate::cmd::transfer;
use crate::cmd::transfer::TransferArgs;
use crate::ffi;
use crate::ffi::GoResponse;
use crate::modelpack::ModelPath;
use crate::shortnames;
use crate::shortnames::Aliases;
use crate::text;

verus! {

/// The server of a login is the given one, and Docker Hub without one.
pub proof fn law_servers_of_logins(args: &LoginArgs, r: String)
    requires
        call_ensures(LoginArgs::server, (args,), r),
    ensures
        args.server is Some ==> r@ == args.server.unwrap()@,
        args.server is None ==> r@ == "docker.io"@,
{
}

/// A login at Hugging Face goes on with a token; one at a registry with a name and a
/// password, and not at all without a name.
pub proof fn law_how_a_login_goes_on(args: &LoginArgs, is_hf: bool, r: LoginPlan)
    requires
        call_ensures(LoginArgs::plan, (args, is_hf), r),
    ensures
        r is HuggingFace <==> is_hf,
        r is HuggingFace ==> r->token == args.token,
        r is NoUsername <==> !is_hf && args.username is None,
        r is Registry ==> Some(r->username) == args.username && r->password == args.password,
{
}

/// A login is reported with its server, and with its user where that is known.
pub proof fn law_reports_of_logins(server: &str, user: Option<&str>, r: String)
    requires
        call_ensures(login::login_report, (server, user), r),
    ensures
        user is None ==> r@ == "Login succeeded for "@ + server@,
        user is Some ==> r@ == "Login succeeded for "@ + server@ + (" (user: "@ + user.unwrap()@
            + ")"@),
{
    if user is None {
        let s = "Login succeeded for "@ + server@;
        assert(s + Seq::<char>::empty() =~= s);
    }
}

/// What was typed is the line without its end.
pub proof fn law_typed_lines(line: &str, r: String, s: String)
    requires
        call_ensures(login::typed_line, (line,), r),
        call_ensures(text::trim_line_end, (line,), s),
    ensures
        r@ == s@,
{
}

/// A transfer goes from what its source stands for to what its destination stands
/// for.
pub proof fn law_ends_of_transfers(
    args: &TransferArgs,
    aliases: &Aliases,
    source: &str,
    destination: &str,
    a: String,
    b: String,
    r: (String, String),
)
    requires
        call_ensures(TransferArgs::endpoints, (args, aliases), r),
        source@ == args.source@,
        destination@ == args.destination@,
        call_ensures(shortnames::resolve, (source, aliases), a),
        call_ensures(shortnames::resolve, (destination, aliases), b),
    ensures
        r.0@ == a@,
        r.1@ == b@,
{
}

/// A transfer is reported as one exactly where anything was sent, with where it came
/// from and where it went.
pub proof fn law_reports_of_transfers(
    changed: bool,
    source: &str,
    destination: &str,
    r: String,
)
    requires
        call_ensures(transfer::transfer_report, (changed, source, destination), r),
    ensures
        changed ==> r@ == "Transferred "@ + source@ + " to "@ + destination@,
        !changed ==> r@ == destination@ + " already up to date with "@ + source@,
{
}

/// A pull is reported with the reference.
pub proof fn law_reports_of_pulls(reference: &str, r: String)
    requires
        call_ensures(pull::pull_report, (reference,), r),
    ensures
        r@ == "Pulled "@ + reference@,
{
}

/// An answer of the registry client is its data exactly where it says that all went
/// well, and else its error.
pub proof fn law_answers(resp: GoResponse, r: Result<String, String>)
    requires
        call_ensures(ffi::consume, (resp,), r),
    ensures
        r is Ok <==> resp.ok,
        r is Ok ==> r->Ok_0@ == resp.data@,
        r is Err ==> r->Err_0@ == resp.error@,
{
}

/// A text can be handed to the registry client exactly where no character of it is
/// the NUL; a transfer has changed something exactly where the answer says so.
pub proof fn law_texts_for_the_client(s: &str, whole: bool, changed: bool)
    requires
        call_ensures(ffi::is_c_string, (s,), whole),
        call_ensures(ffi::is_changed, (s,), changed),
    ensures
        whole <==> forall|i: int| 0 <= i < s@.len() ==> #[trigger] s@[i] as u32 != 0,
        changed <==> s@ == "changed"@,
{
    if s@.contains('\0') {
        let i = choose|i: int| 0 <= i < s@.len() && s@[i] == '\0';
        assert(s@[i] as u32 == 0);
    }
    if !whole {
        assert(s@.contains('\0'));
    } else {
        assert forall|i: int| 0 <= i < s@.len() implies #[trigger] s@[i] as u32 != 0 by {
            if s@[i] as u32 == 0 {
                vstd::utf8::char_u32_cast(s@[i], 0);
                assert(s@[i] == '\0');
                assert(s@.contains('\0'));
            }
        }
    }
}

/// The files of a model are named by their format, and found under their path.
pub proof fn law_files_of_models<P>(m: &ModelPath<P>, p: &P, f: &'static str)
    requires
        call_ensures(ModelPath::<P>::path, (m,), p),
        call_ensures(ModelPath::<P>::format, (m,), f),
    ensures
        m matches ModelPath::Gguf(q) ==> *p == *q && f@ == "gguf"@,
        m matches ModelPath::SafeTensors(q) ==> *p == *q && f@ == "safetensors"@,
{
}

} // verus!
