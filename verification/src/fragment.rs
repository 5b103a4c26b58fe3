//! The CVM identity as a Fluent Bit configuration fragment.
//!
//! The fragment holds one `@SET KEY=value` directive per exported field, in a
//! fixed order. Fluent Bit takes everything after `=` up to the end of the line
//! literally, so values are written bare, and a value holding a newline is
//! refused: it would end the directive early and turn the rest of the value
//! into a configuration line of its own.

use vstd::prelude::*;
use vstd::string::*;

use crate::text::contains_char;

verus! {

/// The identity that the guest agent reports for the CVM.
///
/// Only plain-text fields are held here; the nested TCB report is not needed to
/// build the fragment.
pub struct InstanceInfo {
    pub app_id: String,
    pub instance_id: String,
    pub app_cert: String,
    pub app_name: String,
    pub device_id: String,
    pub key_provider_info: String,
    pub compose_hash: String,
}

/// The identity fields exported to the fragment.
#[derive(Clone, Copy, Debug, PartialEq, Eq)]
pub enum ExportedKey {
    InstanceId,
    AppId,
    AppName,
    ComposeHash,
}

impl ExportedKey {
    /// The variable name under which the field is exported.
    pub open spec fn label(self) -> Seq<char> {
        match self {
            ExportedKey::InstanceId => "INSTANCE_ID"@,
            ExportedKey::AppId => "APP_ID"@,
            ExportedKey::AppName => "APP_NAME"@,
            ExportedKey::ComposeHash => "COMPOSE_HASH"@,
        }
    }

    /// The variable name under which the field is exported.
    pub fn name(&self) -> (name: &'static str)
        ensures
            name@ == self.label(),
    {
        match self {
            ExportedKey::InstanceId => "INSTANCE_ID",
            ExportedKey::AppId => "APP_ID",
            ExportedKey::AppName => "APP_NAME",
            ExportedKey::ComposeHash => "COMPOSE_HASH",
        }
    }
}

/// The exported keys, in the order in which they are written.
pub open spec fn exported_keys() -> Seq<ExportedKey> {
    seq![ExportedKey::InstanceId, ExportedKey::AppId, ExportedKey::AppName, ExportedKey::ComposeHash]
}

/// The value of `info` exported under `key`.
pub open spec fn exported_value(info: InstanceInfo, key: ExportedKey) -> Seq<char> {
    match key {
        ExportedKey::InstanceId => info.instance_id@,
        ExportedKey::AppId => info.app_id@,
        ExportedKey::AppName => info.app_name@,
        ExportedKey::ComposeHash => info.compose_hash@,
    }
}

/// The exported (key, value) pairs of `info`, in order.
pub open spec fn exported_pairs(info: InstanceInfo) -> Seq<(ExportedKey, Seq<char>)> {
    exported_keys().map_values(|k: ExportedKey| (k, exported_value(info, k)))
}

/// One `@SET` directive, newline included.
pub open spec fn directive(key: ExportedKey, value: Seq<char>) -> Seq<char> {
    "@SET "@ + key.label() + "="@ + value + "\n"@
}

/// The directives of `pairs`, one after the other.
pub open spec fn directives(pairs: Seq<(ExportedKey, Seq<char>)>) -> Seq<char>
    decreases pairs.len(),
{
    if pairs.len() == 0 {
        Seq::empty()
    } else {
        directives(pairs.drop_last()) + directive(pairs.last().0, pairs.last().1)
    }
}

/// The first pair of `pairs` whose value holds a newline, if any.
pub open spec fn first_with_newline(pairs: Seq<(ExportedKey, Seq<char>)>) -> Option<ExportedKey>
    decreases pairs.len(),
{
    if pairs.len() == 0 {
        None
    } else if pairs[0].1.contains('\n') {
        Some(pairs[0].0)
    } else {
        first_with_newline(pairs.drop_first())
    }
}

/// The fragment that `info` renders to.
pub open spec fn rendered(info: InstanceInfo) -> Seq<char> {
    directives(exported_pairs(info))
}

/// The field that keeps `info` from being rendered, if any.
pub open spec fn offending_key(info: InstanceInfo) -> Option<ExportedKey> {
    first_with_newline(exported_pairs(info))
}

/// A field that cannot be exported because its value holds a newline.
#[derive(Debug)]
pub struct RenderError {
    pub key: ExportedKey,
}

impl RenderError {
    /// The human-readable description of the error.
    pub open spec fn spec_message(self) -> Seq<char> {
        "Guest agent returned a "@ + self.key.label() + " containing a newline, which cannot be exported"@
    }

    /// The human-readable description of the error.
    pub fn message(&self) -> (text: String)
        ensures
            text@ == self.spec_message(),
    {
        let mut text = String::from_str("Guest agent returned a ");
        text.append(self.key.name());
        text.append(" containing a newline, which cannot be exported");
        text
    }
}

/// The identity fields exported to the fragment, in a stable order.
///
/// Only the fields useful as log labels are exported: the application
/// certificate (a multi-kilobyte PEM blob) and the other fields are left out.
pub fn exported_fields(info: &InstanceInfo) -> (fields: Vec<(ExportedKey, &str)>)
    ensures
        fields@.len() == 4,
        forall|i: int| 0 <= i < 4 ==> (#[trigger] fields@[i]).0 == exported_pairs(*info)[i].0
            && fields@[i].1@ == exported_pairs(*info)[i].1,
{
    let mut fields: Vec<(ExportedKey, &str)> = Vec::new();
    fields.push((ExportedKey::InstanceId, info.instance_id.as_str()));
    fields.push((ExportedKey::AppId, info.app_id.as_str()));
    fields.push((ExportedKey::AppName, info.app_name.as_str()));
    fields.push((ExportedKey::ComposeHash, info.compose_hash.as_str()));
    fields
}

/// Renders the exported fields as Fluent Bit `@SET` directives.
///
/// Fails on the first exported field whose value holds a newline.
pub fn render(info: &InstanceInfo) -> (result: Result<String, RenderError>)
    ensures
        match result {
            Ok(text) => offending_key(*info) is None && text@ == rendered(*info),
            Err(e) => offending_key(*info) == Some(e.key),
        },
{
    let fields = exported_fields(info);
    let ghost pairs = exported_pairs(*info);
    let mut text = String::new();
    let mut i: usize = 0;
    while i < fields.len()
        invariant
            fields@.len() == 4,
            pairs == exported_pairs(*info),
            pairs.len() == 4,
            forall|j: int| 0 <= j < 4 ==> (#[trigger] fields@[j]).0 == pairs[j].0
                && fields@[j].1@ == pairs[j].1,
            i <= 4,
            text@ == directives(pairs.take(i as int)),
            forall|j: int| 0 <= j < i ==> !(#[trigger] pairs[j]).1.contains('\n'),
        decreases 4 - i,
    {
        let (key, value) = fields[i];
        if contains_char(value, '\n') {
            proof { lemma_first_with_newline_at(pairs, i as int); }
            return Err(RenderError { key });
        }
        text.append("@SET ");
        text.append(key.name());
        text.append("=");
        text.append(value);
        text.append("\n");
        proof {
            assert(pairs.take(i + 1).drop_last() =~= pairs.take(i as int));
            assert(text@ =~= directives(pairs.take(i as int)) + directive(key, value@));
        }
        i = i + 1;
    }
    proof {
        assert(pairs.take(4) =~= pairs);
        lemma_first_with_newline_none(pairs);
    }
    Ok(text)
}

/// If no value before `i` holds a newline and the one at `i` does, it is the
/// first one.
proof fn lemma_first_with_newline_at(pairs: Seq<(ExportedKey, Seq<char>)>, i: int)
    requires
        0 <= i < pairs.len(),
        forall|j: int| 0 <= j < i ==> !(#[trigger] pairs[j]).1.contains('\n'),
        pairs[i].1.contains('\n'),
    ensures
        first_with_newline(pairs) == Some(pairs[i].0),
    decreases i,
{
    if i > 0 {
        assert(!pairs[0].1.contains('\n'));
        let rest = pairs.drop_first();
        assert forall|j: int| 0 <= j < i - 1 implies !(#[trigger] rest[j]).1.contains('\n') by {
            assert(rest[j] == pairs[j + 1]);
        }
        lemma_first_with_newline_at(rest, i - 1);
    }
}

/// If no value holds a newline, no pair is reported.
proof fn lemma_first_with_newline_none(pairs: Seq<(ExportedKey, Seq<char>)>)
    requires
        forall|j: int| 0 <= j < pairs.len() ==> !(#[trigger] pairs[j]).1.contains('\n'),
    ensures
        first_with_newline(pairs) is None,
    decreases pairs.len(),
{
    if pairs.len() > 0 {
        let rest = pairs.drop_first();
        assert forall|j: int| 0 <= j < rest.len() implies !(#[trigger] rest[j]).1.contains('\n') by {
            assert(rest[j] == pairs[j + 1]);
        }
        lemma_first_with_newline_none(rest);
    }
}


// ----- Laws -----

/// The fields that are not exported never reach the fragment: two identities
/// that agree on the exported fields render alike, or fail alike, whatever
/// their certificate, device id or key provider.
pub proof fn rendering_ignores_other_fields(a: InstanceInfo, b: InstanceInfo)
    requires
        a.instance_id@ == b.instance_id@,
        a.app_id@ == b.app_id@,
        a.app_name@ == b.app_name@,
        a.compose_hash@ == b.compose_hash@,
    ensures
        rendered(a) == rendered(b),
        offending_key(a) == offending_key(b),
{
    assert(exported_pairs(a) =~= exported_pairs(b));
}

/// Each exported field is written in full, in a fixed order: the fragment is
/// the `@SET` line of the instance id, then of the app id, the app name and
/// the compose hash, each holding the field's value as it is.
pub proof fn fragment_holds_each_value_in_full(info: InstanceInfo)
    ensures
        rendered(info) == "@SET "@ + "INSTANCE_ID"@ + "="@ + info.instance_id@ + "\n"@
            + ("@SET "@ + "APP_ID"@ + "="@ + info.app_id@ + "\n"@)
            + ("@SET "@ + "APP_NAME"@ + "="@ + info.app_name@ + "\n"@)
            + ("@SET "@ + "COMPOSE_HASH"@ + "="@ + info.compose_hash@ + "\n"@),
{
    let p = exported_pairs(info);
    assert(p[0] == (ExportedKey::InstanceId, info.instance_id@));
    assert(p[1] == (ExportedKey::AppId, info.app_id@));
    assert(p[2] == (ExportedKey::AppName, info.app_name@));
    assert(p[3] == (ExportedKey::ComposeHash, info.compose_hash@));
    assert(p.take(4) =~= p);
    assert(p.take(4).drop_last() =~= p.take(3));
    assert(p.take(3).drop_last() =~= p.take(2));
    assert(p.take(2).drop_last() =~= p.take(1));
    assert(p.take(1).drop_last() =~= p.take(0));
    assert(directives(p.take(0)) =~= Seq::<char>::empty());
    assert(directives(p.take(1)) =~= directive(ExportedKey::InstanceId, info.instance_id@));
    assert(directives(p.take(2)) =~= directives(p.take(1)) + directive(ExportedKey::AppId, info.app_id@));
    assert(directives(p.take(3)) =~= directives(p.take(2)) + directive(ExportedKey::AppName, info.app_name@));
    assert(directives(p.take(4)) =~= directives(p.take(3)) + directive(
        ExportedKey::ComposeHash,
        info.compose_hash@,
    ));
}

/// A fragment is refused exactly when an exported value holds a newline.
pub proof fn refused_exactly_on_newlines(info: InstanceInfo)
    ensures
        offending_key(info) is Some <==> (info.instance_id@.contains('\n') || info.app_id@.contains('\n')
            || info.app_name@.contains('\n') || info.compose_hash@.contains('\n')),
{
    let p = exported_pairs(info);
    assert(p[0] == (ExportedKey::InstanceId, info.instance_id@));
    assert(p[1] == (ExportedKey::AppId, info.app_id@));
    assert(p[2] == (ExportedKey::AppName, info.app_name@));
    assert(p[3] == (ExportedKey::ComposeHash, info.compose_hash@));
    let p1 = p.drop_first();
    let p2 = p1.drop_first();
    let p3 = p2.drop_first();
    let p4 = p3.drop_first();
    assert(p4.len() == 0);
    assert(first_with_newline(p4) is None);
    assert(p3[0] == p[3]);
    assert(p2[0] == p[2]);
    assert(p1[0] == p[1]);
    assert(first_with_newline(p3) is Some <==> p[3].1.contains('\n'));
    assert(first_with_newline(p2) is Some <==> (p[2].1.contains('\n') || p[3].1.contains('\n')));
    assert(first_with_newline(p1) is Some <==> (p[1].1.contains('\n') || p[2].1.contains('\n')
        || p[3].1.contains('\n')));
}

/// The number of occurrences of `c` in `s`.
pub open spec fn count_char(s: Seq<char>, c: char) -> nat
    decreases s.len(),
{
    if s.len() == 0 {
        0
    } else {
        count_char(s.drop_last(), c) + if s.last() == c { 1nat } else { 0nat }
    }
}

proof fn lemma_count_concat(s: Seq<char>, t: Seq<char>, c: char)
    ensures
        count_char(s + t, c) == count_char(s, c) + count_char(t, c),
    decreases t.len(),
{
    if t.len() > 0 {
        assert((s + t).drop_last() =~= s + t.drop_last());
        lemma_count_concat(s, t.drop_last(), c);
    } else {
        assert(s + t =~= s);
    }
}

proof fn lemma_count_absent(s: Seq<char>, c: char)
    requires
        !s.contains(c),
    ensures
        count_char(s, c) == 0,
    decreases s.len(),
{
    if s.len() > 0 {
        assert(s.drop_last().len() < s.len());
        assert forall|i: int| 0 <= i < s.drop_last().len() implies s.drop_last()[i] != c by {
            assert(s.drop_last()[i] == s[i]);
        }
        assert(s[s.len() - 1] != c);
        lemma_count_absent(s.drop_last(), c);
    }
}

proof fn lemma_directive_newlines(key: ExportedKey, value: Seq<char>)
    requires
        !value.contains('\n'),
    ensures
        count_char(directive(key, value), '\n') == 1,
        directive(key, value).last() == '\n',
{
    reveal_strlit("@SET ");
    reveal_strlit("=");
    reveal_strlit("\n");
    reveal_strlit("INSTANCE_ID");
    reveal_strlit("APP_ID");
    reveal_strlit("APP_NAME");
    reveal_strlit("COMPOSE_HASH");
    let head = "@SET "@ + key.label() + "="@;
    assert(!head.contains('\n')) by {
        assert forall|i: int| 0 <= i < head.len() implies head[i] != '\n' by {
            if i < 5 {
                assert(head[i] == "@SET "@[i]);
            } else if i < 5 + key.label().len() {
                assert(head[i] == key.label()[i - 5]);
            } else {
                assert(head[i] == '=');
            }
        }
    }
    lemma_count_absent(head, '\n');
    lemma_count_absent(value, '\n');
    lemma_count_concat(head, value, '\n');
    lemma_count_concat(head + value, "\n"@, '\n');
    assert("\n"@.drop_last() =~= Seq::<char>::empty());
    assert(count_char("\n"@.drop_last(), '\n') == 0);
    assert(count_char("\n"@, '\n') == 1);
    assert(directive(key, value) == head + value + "\n"@);
}

proof fn lemma_directives_newlines(pairs: Seq<(ExportedKey, Seq<char>)>)
    requires
        forall|j: int| 0 <= j < pairs.len() ==> !(#[trigger] pairs[j]).1.contains('\n'),
    ensures
        count_char(directives(pairs), '\n') == pairs.len(),
        pairs.len() > 0 ==> directives(pairs).last() == '\n',
    decreases pairs.len(),
{
    if pairs.len() > 0 {
        let init = pairs.drop_last();
        assert forall|j: int| 0 <= j < init.len() implies !(#[trigger] init[j]).1.contains('\n') by {
            assert(init[j] == pairs[j]);
        }
        lemma_directives_newlines(init);
        lemma_directive_newlines(pairs.last().0, pairs.last().1);
        lemma_count_concat(directives(init), directive(pairs.last().0, pairs.last().1), '\n');
    }
}

/// No value can add a configuration line of its own: a fragment that renders
/// holds exactly one newline per exported field, each ending a directive.
pub proof fn one_line_per_field(info: InstanceInfo)
    requires
        offending_key(info) is None,
    ensures
        count_char(rendered(info), '\n') == 4,
        rendered(info).last() == '\n',
{
    let pairs = exported_pairs(info);
    assert forall|j: int| 0 <= j < pairs.len() implies !(#[trigger] pairs[j]).1.contains('\n') by {
        if pairs[j].1.contains('\n') {
            lemma_first_with_newline_some(pairs, j);
        }
    }
    lemma_directives_newlines(pairs);
}

/// A value that holds a newline is always reported.
proof fn lemma_first_with_newline_some(pairs: Seq<(ExportedKey, Seq<char>)>, j: int)
    requires
        0 <= j < pairs.len(),
        pairs[j].1.contains('\n'),
    ensures
        first_with_newline(pairs) is Some,
    decreases j,
{
    if !pairs[0].1.contains('\n') {
        let rest = pairs.drop_first();
        assert(rest[j - 1] == pairs[j]);
        lemma_first_with_newline_some(rest, j - 1);
    }
}

} // verus!
