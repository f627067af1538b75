//! Role normalization and adjacent-message merging.
//!
//! Providers that reject consecutive same-role turns get their message list
//! rewritten: every "system" role becomes "user", and consecutive messages
//! that then share a role are folded into one message whose contents are
//! joined with a blank line.

use crate::prompt::{Message, MessageView};
use vstd::prelude::*;

verus! {

/// The separator placed between the contents of merged messages.
pub open spec fn merge_sep() -> Seq<char> {
    "\n\n"@
}

/// Role normalization of one message: "system" becomes "user", every other
/// role is kept.
pub open spec fn normalize_role(m: MessageView) -> MessageView {
    if m.role == "system"@ {
        MessageView { role: "user"@, content: m.content }
    } else {
        m
    }
}

/// Role normalization applied to a whole conversation.
pub open spec fn normalized(s: Seq<MessageView>) -> Seq<MessageView> {
    s.map_values(|m: MessageView| normalize_role(m))
}

/// One step of the left-to-right merge fold: a message whose role equals the
/// role of the last accumulated message is folded into it, any other message
/// is appended.
pub open spec fn merge_step(acc: Seq<MessageView>, m: MessageView) -> Seq<MessageView> {
    if acc.len() > 0 && acc.last().role == m.role {
        acc.update(
            acc.len() - 1,
            MessageView { role: acc.last().role, content: acc.last().content + merge_sep() + m.content },
        )
    } else {
        acc.push(m)
    }
}

/// The merged form of a conversation: the left-to-right fold of
/// [`merge_step`] over the sequence.
pub open spec fn merged(s: Seq<MessageView>) -> Seq<MessageView>
    decreases s.len(),
{
    if s.len() == 0 {
        Seq::empty()
    } else {
        merge_step(merged(s.drop_last()), s.last())
    }
}

/// What a merging provider receives: the conversation with roles normalized
/// and adjacent same-role messages merged.
pub open spec fn merged_normalized(s: Seq<MessageView>) -> Seq<MessageView> {
    merged(normalized(s))
}

/// Character-wise equality of two string slices.
fn str_eq(a: &str, b: &str) -> (r: bool)
    ensures
        r == (a@ == b@),
{
    let x: String = a.to_owned();
    let y: String = b.to_owned();
    x == y
}

/// Normalizes roles and merges adjacent same-role messages, in one
/// left-to-right pass, as [`merged_normalized`] describes.
pub fn merge_messages(messages: &Vec<Message>) -> (out: Vec<Message>)
    ensures
        out.deep_view() == merged_normalized(messages.deep_view()),
{
    let ghost all: Seq<MessageView> = messages.deep_view();
    let mut out: Vec<Message> = Vec::new();
    let mut i: usize = 0;
    proof {
        assert(normalized(all.take(0)) =~= Seq::<MessageView>::empty());
        assert(out.deep_view() =~= Seq::<MessageView>::empty());
    }
    while i < messages.len()
        invariant
            i <= messages.len(),
            all == messages.deep_view(),
            out.deep_view() == merged(normalized(all.take(i as int))),
        decreases messages.len() - i,
    {
        let m = &messages[i];
        let role: String = if str_eq(m.role.as_str(), "system") {
            "user".to_owned()
        } else {
            m.role.clone()
        };
        let content: String = m.content.clone();
        let ghost norm: MessageView = normalize_role(all[i as int]);
        proof {
            assert(norm == (MessageView { role: role@, content: content@ }));
        }
        let n: usize = out.len();
        let merge_with_last = n > 0 && str_eq(out[n - 1].role.as_str(), role.as_str());
        let ghost acc: Seq<MessageView> = out.deep_view();
        if merge_with_last {
            let mut last = out.pop().unwrap();
            last.content.append("\n\n");
            last.content.append(content.as_str());
            out.push(last);
            proof {
                assert(out.deep_view() =~= merge_step(acc, norm));
            }
        } else {
            out.push(Message { role, content });
            proof {
                assert(out.deep_view() =~= merge_step(acc, norm));
            }
        }
        proof {
            assert(normalized(all.take(i + 1)) =~= normalized(all.take(i as int)).push(norm));
            lemma_merged_push(normalized(all.take(i as int)), norm);
        }
        i = i + 1;
    }
    proof {
        assert(all.take(messages.deep_view().len() as int) =~= all);
    }
    out
}

/// Folding one more message into a merged sequence is one [`merge_step`].
proof fn lemma_merged_push(s: Seq<MessageView>, m: MessageView)
    ensures
        merged(s.push(m)) == merge_step(merged(s), m),
{
    assert(s.push(m).drop_last() =~= s);
    assert(s.push(m).last() == m);
}

/// No two adjacent messages of the sequence share a role.
pub open spec fn no_adjacent_same_role(s: Seq<MessageView>) -> bool {
    forall|i: int| 0 <= i < s.len() - 1 ==> #[trigger] s[i].role != s[i + 1].role
}

/// A merged sequence never keeps two adjacent messages of the same role.
pub proof fn lemma_merged_no_adjacent(s: Seq<MessageView>)
    ensures
        no_adjacent_same_role(merged(s)),
    decreases s.len(),
{
    if s.len() > 0 {
        let t = s.drop_last();
        let m = s.last();
        lemma_merged_no_adjacent(t);
        let acc = merged(t);
        if acc.len() > 0 && acc.last().role == m.role {
            let r = merge_step(acc, m);
            assert forall|i: int| 0 <= i < r.len() - 1 implies #[trigger] r[i].role != r[i + 1].role by {
                assert(r[i].role == acc[i].role);
                assert(r[i + 1].role == acc[i + 1].role);
            }
        } else {
            let r = acc.push(m);
            assert forall|i: int| 0 <= i < r.len() - 1 implies #[trigger] r[i].role != r[i + 1].role by {
                if i + 1 < acc.len() {
                    assert(acc[i].role != acc[i + 1].role);
                } else {
                    assert(r[i] == acc.last());
                    assert(r[i + 1] == m);
                }
            }
        }
    }
}

/// Merging a sequence without adjacent same-role messages changes nothing.
pub proof fn lemma_merged_of_no_adjacent(s: Seq<MessageView>)
    requires
        no_adjacent_same_role(s),
    ensures
        merged(s) == s,
    decreases s.len(),
{
    if s.len() > 0 {
        let t = s.drop_last();
        let m = s.last();
        assert forall|i: int| 0 <= i < t.len() - 1 implies #[trigger] t[i].role != t[i + 1].role by {
            assert(s[i].role != s[i + 1].role);
        }
        lemma_merged_of_no_adjacent(t);
        if t.len() > 0 {
            assert(t.last().role == s[s.len() - 2].role);
            assert(m.role == s[s.len() - 1].role);
            assert(t.last().role != m.role);
        }
        assert(t.push(m) =~= s);
    }
}

/// Merging is idempotent: merging an already-merged sequence yields the
/// same sequence.
pub proof fn lemma_merged_idempotent(s: Seq<MessageView>)
    ensures
        merged(merged(s)) == merged(s),
{
    lemma_merged_no_adjacent(s);
    lemma_merged_of_no_adjacent(merged(s));
}

/// Merging never lengthens a conversation, and never empties a non-empty
/// one.
pub proof fn lemma_merged_len(s: Seq<MessageView>)
    ensures
        merged(s).len() <= s.len(),
        s.len() > 0 ==> merged(s).len() > 0,
    decreases s.len(),
{
    if s.len() > 0 {
        lemma_merged_len(s.drop_last());
    }
}

/// The contents of a conversation, joined in order with the merge
/// separator between consecutive messages.
pub open spec fn joined_contents(s: Seq<MessageView>) -> Seq<char>
    decreases s.len(),
{
    if s.len() == 0 {
        Seq::empty()
    } else if s.len() == 1 {
        s[0].content
    } else {
        joined_contents(s.drop_last()) + merge_sep() + s.last().content
    }
}

/// Merging moves separators into messages without losing, reordering or
/// altering content: joining the merged contents with the separator yields
/// exactly the join of the original contents.
pub proof fn lemma_merged_joined_contents(s: Seq<MessageView>)
    ensures
        joined_contents(merged(s)) == joined_contents(s),
    decreases s.len(),
{
    if s.len() == 0 {
    } else {
        let t = s.drop_last();
        let m = s.last();
        lemma_merged_joined_contents(t);
        lemma_merged_len(t);
        let acc = merged(t);
        if s.len() == 1 {
            assert(merged(s) =~= seq![m]);
        } else {
            if acc.last().role == m.role {
                let updated = acc.update(
                    acc.len() - 1,
                    MessageView {
                        role: acc.last().role,
                        content: acc.last().content + merge_sep() + m.content,
                    },
                );
                assert(merged(s) == updated);
                if acc.len() == 1 {
                    assert(joined_contents(updated) == updated[0].content);
                    assert(joined_contents(acc) == acc[0].content);
                    assert(joined_contents(updated) =~= joined_contents(acc) + merge_sep()
                        + m.content);
                } else {
                    assert(updated.drop_last() =~= acc.drop_last());
                    assert(updated.last().content == acc.last().content + merge_sep() + m.content);
                    assert(joined_contents(updated) == joined_contents(acc.drop_last())
                        + merge_sep() + (acc.last().content + merge_sep() + m.content));
                    assert(joined_contents(updated) =~= (joined_contents(acc.drop_last())
                        + merge_sep() + acc.last().content) + merge_sep() + m.content);
                }
                assert(joined_contents(merged(s)) == joined_contents(acc) + merge_sep()
                    + m.content);
            } else {
                let pushed = acc.push(m);
                assert(merged(s) == pushed);
                assert(pushed.drop_last() =~= acc);
                assert(pushed.last() == m);
                assert(joined_contents(pushed) == joined_contents(acc) + merge_sep() + m.content);
            }
            assert(joined_contents(s) == joined_contents(t) + merge_sep() + m.content);
        }
    }
}

/// A role absent from every input message is absent from every merged
/// message.
pub proof fn lemma_merged_keeps_role_absence(s: Seq<MessageView>, r: Seq<char>)
    requires
        forall|i: int| 0 <= i < s.len() ==> #[trigger] s[i].role != r,
    ensures
        forall|i: int| 0 <= i < merged(s).len() ==> #[trigger] merged(s)[i].role != r,
    decreases s.len(),
{
    if s.len() > 0 {
        let t = s.drop_last();
        let m = s.last();
        assert forall|i: int| 0 <= i < t.len() implies #[trigger] t[i].role != r by {
            assert(s[i].role != r);
        }
        lemma_merged_keeps_role_absence(t, r);
        let acc = merged(t);
        let out = merged(s);
        assert forall|i: int| 0 <= i < out.len() implies #[trigger] out[i].role != r by {
            if acc.len() > 0 && acc.last().role == m.role {
                assert(out[i].role == acc[i].role);
            } else {
                if i < acc.len() {
                    assert(out[i] == acc[i]);
                } else {
                    assert(out[i] == m);
                    assert(s[s.len() - 1].role != r);
                }
            }
        }
    }
}

/// After role normalization no message carries the role "system".
pub proof fn lemma_normalized_no_system(s: Seq<MessageView>)
    ensures
        forall|i: int|
            0 <= i < normalized(s).len() ==> #[trigger] normalized(s)[i].role != "system"@,
{
    reveal_strlit("system");
    reveal_strlit("user");
    assert forall|i: int|
        0 <= i < normalized(s).len() implies #[trigger] normalized(s)[i].role != "system"@ by {
        assert(normalized(s)[i] == normalize_role(s[i]));
        assert("user"@.len() == 4);
        assert("system"@.len() == 6);
    }
}

/// After normalization and merging no message carries the role "system".
pub proof fn lemma_merged_normalized_no_system(s: Seq<MessageView>)
    ensures
        forall|i: int|
            0 <= i < merged_normalized(s).len() ==> #[trigger] merged_normalized(s)[i].role
                != "system"@,
{
    lemma_normalized_no_system(s);
    lemma_merged_keeps_role_absence(normalized(s), "system"@);
}

/// Normalization changes nothing in a conversation that carries no
/// "system" role.
proof fn lemma_normalized_identity_without_system(s: Seq<MessageView>)
    requires
        forall|i: int| 0 <= i < s.len() ==> #[trigger] s[i].role != "system"@,
    ensures
        normalized(s) == s,
{
    assert forall|i: int| 0 <= i < s.len() implies #[trigger] normalized(s)[i] == s[i] by {
        assert(s[i].role != "system"@);
    }
    assert(normalized(s) =~= s);
}

/// The whole pass is idempotent: normalizing and merging an already
/// normalized and merged conversation yields the same conversation.
pub proof fn lemma_merged_normalized_idempotent(s: Seq<MessageView>)
    ensures
        merged_normalized(merged_normalized(s)) == merged_normalized(s),
{
    lemma_merged_normalized_no_system(s);
    lemma_normalized_identity_without_system(merged_normalized(s));
    lemma_merged_no_adjacent(normalized(s));
    lemma_merged_of_no_adjacent(merged_normalized(s));
}

} // verus!
