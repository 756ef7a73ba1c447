//! What holds of every client setting.
use vstd::prelude::*;

use crate::client::{
    has_banned_token, header_text, looks_like_contact, refusal, without_leading_slashes,
};
use crate::text::{contains_text, trimmed};

verus! {

/// A `User-Agent` is accepted exactly when application, version and contact
/// are there, the contact can be reached, and no banned token occurs.
pub proof fn a_user_agent_identifies_and_reaches(
    app: Seq<char>,
    version: Seq<char>,
    contact: Seq<char>,
)
    ensures
        refusal(app, version, contact) is None <==> trimmed(app).len() > 0 && trimmed(
            version,
        ).len() > 0 && trimmed(contact).len() > 0 && looks_like_contact(trimmed(contact))
            && !has_banned_token(header_text(app, version, contact)),
{
}

/// A leading slash of a path makes no difference.
pub proof fn a_leading_slash_makes_no_difference(path: Seq<char>)
    ensures
        without_leading_slashes(seq!['/'] + path) == without_leading_slashes(path),
{
    let slashed = seq!['/'] + path;
    assert(slashed.drop_first() =~= path);
}

/// An accepted `User-Agent` names application, version and contact, in this
/// order; it is refused where one is blank, where the contact holds neither `@`
/// nor `.` nor a scheme, and where it holds a banned token.
pub proof fn a_user_agent_names_who_asks(app: Seq<char>, version: Seq<char>, contact: Seq<char>)
    ensures
        ({
            let header = header_text(app, version, contact);
            let a = trimmed(app);
            let v = trimmed(version);
            let c = trimmed(contact);
            &&& header == a + "/"@ + v + " "@ + c
            &&& a.len() == 0 || v.len() == 0 || c.len() == 0 ==> refusal(
                app,
                version,
                contact,
            ) is Some
            &&& !c.contains('@') && !c.contains('.') && !contains_text(c, "://"@) ==> refusal(
                app,
                version,
                contact,
            ) is Some
            &&& contains_text(header, "okhttp"@) || contains_text(header, "Dalvik"@)
                || contains_text(header, "fhttp"@) || contains_text(header, "Java"@) ==> refusal(
                app,
                version,
                contact,
            ) is Some
            &&& refusal(app, version, contact) is None <==> {
                &&& a.len() > 0 && v.len() > 0 && c.len() > 0
                &&& c.contains('@') || c.contains('.') || contains_text(c, "://"@)
                &&& !contains_text(header, "okhttp"@) && !contains_text(header, "Dalvik"@)
                &&& !contains_text(header, "fhttp"@) && !contains_text(header, "Java"@)
            }
        }),
{
}

/// A path is taken from its first character on that is no slash.
pub proof fn a_path_starts_behind_its_slashes(path: Seq<char>)
    ensures
        ({
            let rest = without_leading_slashes(path);
            let cut = path.len() - rest.len();
            &&& 0 <= cut <= path.len()
            &&& rest == path.subrange(cut, path.len() as int)
            &&& forall|i: int| 0 <= i < cut ==> #[trigger] path[i] == '/'
            &&& rest.len() > 0 ==> rest[0] != '/'
        }),
    decreases path.len(),
{
    if path.len() > 0 && path[0] == '/' {
        let shorter = path.drop_first();
        a_path_starts_behind_its_slashes(shorter);
        let rest = without_leading_slashes(path);
        let cut = path.len() - rest.len();
        assert(rest =~= path.subrange(cut, path.len() as int));
        assert forall|i: int| 0 <= i < cut implies #[trigger] path[i] == '/' by {
            if i > 0 {
                assert(shorter[i - 1] == '/');
            }
        }
    } else {
        assert(path.subrange(0, path.len() as int) =~= path);
    }
}

} // verus!
