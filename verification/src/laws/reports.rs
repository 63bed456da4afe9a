//! Where diagnostic reports go.

use crate::diagnostics_upload::{
    is_configured, is_number, lemma_after_last_is, path_parts, target_of, SentryTarget,
};
use crate::network::lemma_bare_end_is;
use crate::text::{cut, lemma_first_index_is, trimmed};
use vstd::prelude::*;

verus! {

proof fn lemma_cut_at(first: Seq<char>, mark: char, rest: Seq<char>)
    requires
        !first.contains(mark),
    ensures
        cut(first.push(mark) + rest, mark) == (first, Some(rest)),
        cut(first, mark) == (first, None::<Seq<char>>),
{
    let whole = first.push(mark) + rest;
    assert forall|j: int| 0 <= j < first.len() implies #[trigger] whole[j] != mark by {
        assert(whole[j] == first[j]);
        assert(first.contains(first[j]));
    }
    lemma_first_index_is(whole, mark, first.len() as int);
    assert(whole.take(first.len() as int) =~= first);
    assert(whole.skip(first.len() as int + 1) =~= rest);
    assert forall|j: int| 0 <= j < first.len() implies #[trigger] first[j] != mark by {
        assert(first.contains(first[j]));
    }
    lemma_first_index_is(first, mark, first.len() as int);
}

/// A report goes to the project on the host that the setting names, under the
/// public key that stands in it.
pub proof fn a_report_goes_where_the_setting_says(
    key: Seq<char>,
    host: Seq<char>,
    project: Seq<char>,
)
    requires
        key.len() > 0,
        !key.contains('@'),
        !key.contains(':'),
        host.len() > 0,
        !host.contains('/'),
        is_number(project),
    ensures
        ({
            let dsn = "https://"@ + key + "@"@ + host + "/"@ + project;
            &&& target_of(dsn) is Some
            &&& target_of(dsn)->0.public_key == key
            &&& target_of(dsn)->0.dsn == dsn
            &&& target_of(dsn)->0.envelope_url == "https://"@ + host + "/api/"@ + project
                + "/envelope/"@
        }),
{
    reveal_strlit("@");
    reveal_strlit("/");
    let start = "https://"@;
    let dsn = start + key + "@"@ + host + "/"@ + project;
    let place = host.push('/') + project;
    let rest = key.push('@') + place;
    assert("@"@ =~= seq!['@'] && "/"@ =~= seq!['/']);
    assert(dsn =~= start + rest);
    assert(dsn.take(start.len() as int) =~= start);
    assert(dsn.skip(start.len() as int) =~= rest);
    lemma_cut_at(key, '@', place);
    lemma_cut_at(host, '/', project);
    lemma_cut_at(key, ':', place);
    assert forall|j: int| 0 <= j < project.len() implies #[trigger] project[j] != '/' by {}
    lemma_bare_end_is(project, '/', project.len() as int);
    assert(project.subrange(0, project.len() as int) =~= project);
    lemma_after_last_is(project, '/', 0);
    assert(path_parts(project) == (Seq::<char>::empty(), project));
    assert("https://"@ + host + Seq::<char>::empty() + "/api/"@ + project + "/envelope/"@
        =~= "https://"@ + host + "/api/"@ + project + "/envelope/"@);
}

/// A build without the setting sends no reports, and one with it sends them just
/// where it says, whatever white space stands around it.
pub proof fn a_build_sends_where_its_setting_says(
    dsn: Option<&str>,
    target: Option<SentryTarget>,
)
    requires
        is_configured(dsn, target),
    ensures
        dsn is None ==> target is None,
        dsn is Some ==> (target is Some <==> target_of(trimmed(dsn->0@)) is Some),
        target is Some ==> target->0.envelope_url@ == target_of(
            trimmed(dsn->0@),
        )->0.envelope_url && target->0.public_key@ == target_of(trimmed(dsn->0@))->0.public_key,
{
}

} // verus!
