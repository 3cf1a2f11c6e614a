//! Reminders: hidden prompts that are put around what is sent to the model.

use crate::text;
use vstd::prelude::*;

verus! {

/// On which side of the prompt a reminder is put.
#[derive(Clone, Copy, Debug, PartialEq, Eq, Structural)]
pub enum Timing {
    Pre,
    Post,
}

/// A reminder. `probability_bits` holds the bits of a single-precision number,
/// the chance with which the reminder is drawn; whoever draws reads it. An
/// `init` reminder is not drawn: it belongs to the start of a new session.
#[derive(Debug)]
pub struct Reminder {
    pub probability_bits: u32,
    pub prompt: String,
    pub timing: Timing,
    pub init: bool,
}

/// What a reminder says, and when.
#[verifier::ext_equal]
pub struct ReminderView {
    pub probability_bits: u32,
    pub prompt: Seq<char>,
    pub timing: Timing,
    pub init: bool,
}

impl View for Reminder {
    type V = ReminderView;

    open spec fn view(&self) -> ReminderView {
        ReminderView {
            probability_bits: self.probability_bits,
            prompt: self.prompt@,
            timing: self.timing,
            init: self.init,
        }
    }
}

impl Clone for Reminder {
    /// The same reminder.
    fn clone(&self) -> (r: Reminder)
        ensures
            r@ == self@,
    {
        Reminder {
            probability_bits: self.probability_bits,
            prompt: self.prompt.clone(),
            timing: self.timing,
            init: self.init,
        }
    }
}

/// What a list of reminders says.
pub open spec fn reminder_views(reminders: Seq<Reminder>) -> Seq<ReminderView> {
    Seq::new(reminders.len(), |i: int| reminders[i]@)
}

/// The same reminders.
pub fn clone_all(reminders: &Vec<Reminder>) -> (r: Vec<Reminder>)
    ensures
        reminder_views(r@) == reminder_views(reminders@),
        r.len() == reminders.len(),
{
    let mut out: Vec<Reminder> = Vec::new();
    let mut i: usize = 0;
    while i < reminders.len()
        invariant
            i <= reminders.len(),
            out.len() == i,
            forall|j: int| 0 <= j < i ==> (#[trigger] out@[j])@ == reminders@[j]@,
        decreases reminders.len() - i,
    {
        out.push(reminders[i].clone());
        i += 1;
    }
    proof {
        assert(reminder_views(out@) =~= reminder_views(reminders@));
    }
    out
}

/// Whether a reminder applies: one for the start of a session on a new session,
/// any other one when it was drawn.
pub open spec fn applies(r: ReminderView, is_new_session: bool, drawn: bool) -> bool {
    if r.init {
        is_new_session
    } else {
        drawn
    }
}

/// The reminders that apply, in their order. `drawn` says of each whether it was
/// drawn.
pub open spec fn active(
    reminders: Seq<ReminderView>,
    is_new_session: bool,
    drawn: Seq<bool>,
) -> Seq<ReminderView>
    decreases reminders.len(),
{
    if reminders.len() == 0 {
        Seq::empty()
    } else {
        let rest = active(reminders.drop_last(), is_new_session, drawn.drop_last());
        if applies(reminders.last(), is_new_session, drawn.last()) {
            rest.push(reminders.last())
        } else {
            rest
        }
    }
}

/// The prompts of reminders.
pub open spec fn prompts(reminders: Seq<ReminderView>) -> Seq<Seq<char>> {
    reminders.map_values(|r: ReminderView| r.prompt)
}

/// What the reminders of one side say, one behind the other.
pub open spec fn said(reminders: Seq<ReminderView>, timing: Timing) -> Seq<char>
    decreases reminders.len(),
{
    if reminders.len() == 0 {
        Seq::empty()
    } else if reminders.last().timing == timing {
        said(reminders.drop_last(), timing) + reminders.last().prompt
    } else {
        said(reminders.drop_last(), timing)
    }
}

/// The prompt between the reminders that apply.
pub open spec fn reminded(prompt: Seq<char>, applied: Seq<ReminderView>) -> Seq<char> {
    said(applied, Timing::Pre) + prompt + said(applied, Timing::Post)
}

/// Puts the reminders that apply around `prompt`, and says which they are.
/// `drawn[i]` tells whether the `i`-th reminder was drawn.
pub fn apply_reminders(
    prompt: &str,
    reminders: &[Reminder],
    is_new_session: bool,
    drawn: &[bool],
) -> (r: (String, Vec<String>))
    requires
        drawn@.len() == reminders@.len(),
    ensures
        r.0@ == reminded(prompt@, active(reminder_views(reminders@), is_new_session, drawn@)),
        text::texts(r.1@) == prompts(active(reminder_views(reminders@), is_new_session, drawn@)),
{
    let ghost views = reminder_views(reminders@);
    let mut pre = String::new();
    let mut post = String::new();
    let mut activated: Vec<String> = Vec::new();
    let mut i: usize = 0;
    proof {
        assert(text::texts(activated@) =~= prompts(Seq::empty()));
    }
    while i < reminders.len()
        invariant
            i <= reminders.len(),
            drawn@.len() == reminders@.len(),
            views == reminder_views(reminders@),
            ({
                let a = active(views.take(i as int), is_new_session, drawn@.take(i as int));
                &&& pre@ == said(a, Timing::Pre)
                &&& post@ == said(a, Timing::Post)
                &&& text::texts(activated@) == prompts(a)
            }),
        decreases reminders.len() - i,
    {
        let ghost a = active(views.take(i as int), is_new_session, drawn@.take(i as int));
        let ghost r = views[i as int];
        proof {
            assert(views.take(i + 1).drop_last() =~= views.take(i as int));
            assert(drawn@.take(i + 1).drop_last() =~= drawn@.take(i as int));
            assert(a.push(r).drop_last() =~= a);
            assert(prompts(a.push(r)) =~= prompts(a).push(r.prompt));
        }
        let should_apply = if reminders[i].init {
            is_new_session
        } else {
            drawn[i]
        };
        if should_apply {
            let ghost before = activated@;
            activated.push(reminders[i].prompt.clone());
            proof {
                text::lemma_texts_push(before, activated@.last());
            }
            match reminders[i].timing {
                Timing::Pre => pre.append(reminders[i].prompt.as_str()),
                Timing::Post => post.append(reminders[i].prompt.as_str()),
            }
        }
        i += 1;
    }
    proof {
        assert(views.take(reminders.len() as int) =~= views);
        assert(drawn@.take(reminders.len() as int) =~= drawn@);
    }
    (text::concat3(pre.as_str(), prompt, post.as_str()), activated)
}

// ---------------------------------------------------------------------------
// Laws
// ---------------------------------------------------------------------------

/// Where no reminder applies, the prompt is sent as it is.
pub proof fn law_no_reminder_no_change(prompt: Seq<char>)
    ensures
        reminded(prompt, Seq::empty()) == prompt,
{
    assert(reminded(prompt, Seq::empty()) =~= prompt);
}

/// What was typed is always sent: reminders only stand around it.
pub proof fn law_prompt_is_kept(prompt: Seq<char>, applied: Seq<ReminderView>)
    ensures
        reminded(prompt, applied).subrange(
            said(applied, Timing::Pre).len() as int,
            (said(applied, Timing::Pre).len() + prompt.len()) as int,
        ) == prompt,
{
    assert(reminded(prompt, applied).subrange(
        said(applied, Timing::Pre).len() as int,
        (said(applied, Timing::Pre).len() + prompt.len()) as int,
    ) =~= prompt);
}

/// Whether `r` is one of the reminders, and applies.
pub open spec fn should_apply(
    r: ReminderView,
    reminders: Seq<ReminderView>,
    is_new_session: bool,
    drawn: Seq<bool>,
) -> bool {
    exists|i: int|
        0 <= i < reminders.len() && applies(reminders[i], is_new_session, drawn[i])
            && #[trigger] reminders[i] == r
}

/// Exactly the reminders that should apply do: one for the start of a session on
/// a new session, whatever was drawn, and never later; any other one when it was
/// drawn.
pub proof fn law_exactly_those_apply(
    reminders: Seq<ReminderView>,
    is_new_session: bool,
    drawn: Seq<bool>,
)
    requires
        drawn.len() == reminders.len(),
    ensures
        forall|i: int|
            0 <= i < reminders.len() && applies(reminders[i], is_new_session, drawn[i])
                ==> #[trigger] active(reminders, is_new_session, drawn).contains(reminders[i]),
        forall|j: int|
            0 <= j < active(reminders, is_new_session, drawn).len() ==> should_apply(
                #[trigger] active(reminders, is_new_session, drawn)[j],
                reminders,
                is_new_session,
                drawn,
            ),
    decreases reminders.len(),
{
    let all = active(reminders, is_new_session, drawn);
    if reminders.len() > 0 {
        let front = reminders.drop_last();
        let luck = drawn.drop_last();
        let rest = active(front, is_new_session, luck);
        let last = reminders.len() - 1;
        law_exactly_those_apply(front, is_new_session, luck);
        assert forall|i: int|
            0 <= i < reminders.len() && applies(
                reminders[i],
                is_new_session,
                drawn[i],
            ) implies #[trigger] all.contains(reminders[i]) by {
            if i < last {
                assert(front[i] == reminders[i] && luck[i] == drawn[i]);
                assert(rest.contains(front[i]));
                let k = choose|k: int| 0 <= k < rest.len() && rest[k] == front[i];
                assert(all[k] == front[i]);
            } else {
                assert(all[all.len() - 1] == reminders[i]);
            }
        }
        assert forall|j: int| 0 <= j < all.len() implies should_apply(
            #[trigger] all[j],
            reminders,
            is_new_session,
            drawn,
        ) by {
            if j < rest.len() {
                assert(all[j] == rest[j]);
                assert(should_apply(rest[j], front, is_new_session, luck));
                let i = choose|i: int|
                    0 <= i < front.len() && applies(front[i], is_new_session, luck[i])
                        && #[trigger] front[i] == rest[j];
                assert(reminders[i] == front[i] && drawn[i] == luck[i]);
            } else {
                assert(reminders[last] == all[j]);
            }
        }
    }
}

/// One reminder alone: at the start of a session it applies to a new session and to no
/// other, whatever was drawn; any other one applies when it was drawn, in a new
/// session or not. One that applies stands whole in front of the prompt or behind it,
/// as its timing says.
pub proof fn law_one_reminder(r: ReminderView, is_new_session: bool, drawn: bool, prompt: Seq<char>)
    ensures
        ({
            let applied = active(seq![r], is_new_session, seq![drawn]);
            let sent = reminded(prompt, applied);
            &&& r.init && is_new_session ==> applied == seq![r]
            &&& r.init && !is_new_session ==> applied.len() == 0
            &&& !r.init && drawn ==> applied == seq![r]
            &&& !r.init && !drawn ==> applied.len() == 0
            &&& applied.len() == 0 ==> sent == prompt
            &&& applied.len() > 0 && r.timing == Timing::Pre ==> sent == r.prompt + prompt
            &&& applied.len() > 0 && r.timing == Timing::Post ==> sent == prompt + r.prompt
            &&& applied.len() > 0 ==> prompts(applied) == seq![r.prompt]
        }),
{
    let rs = seq![r];
    assert(rs.drop_last() =~= Seq::<ReminderView>::empty());
    let applied = active(rs, is_new_session, seq![drawn]);
    assert(active(rs.drop_last(), is_new_session, seq![drawn].drop_last()) =~= Seq::empty());
    if applies(r, is_new_session, drawn) {
        assert(applied =~= rs);
        assert(said(rs.drop_last(), Timing::Pre) =~= Seq::empty());
        assert(said(rs.drop_last(), Timing::Post) =~= Seq::empty());
        assert(prompts(applied) =~= seq![r.prompt]);
        if r.timing == Timing::Pre {
            assert(reminded(prompt, applied) =~= r.prompt + prompt);
        } else {
            assert(reminded(prompt, applied) =~= prompt + r.prompt);
        }
    } else {
        assert(applied =~= Seq::empty());
        law_no_reminder_no_change(prompt);
    }
}

proof fn lemma_said_parts(a: Seq<ReminderView>, b: Seq<ReminderView>, timing: Timing)
    ensures
        said(a + b, timing) == said(a, timing) + said(b, timing),
    decreases b.len(),
{
    if b.len() == 0 {
        assert(a + b =~= a);
        assert(said(a, timing) + said(b, timing) =~= said(a, timing));
    } else {
        assert((a + b).drop_last() =~= a + b.drop_last());
        lemma_said_parts(a, b.drop_last(), timing);
        assert(said(a + b, timing) =~= said(a, timing) + said(b, timing));
    }
}

proof fn lemma_active_parts(
    a: Seq<ReminderView>,
    b: Seq<ReminderView>,
    is_new_session: bool,
    x: Seq<bool>,
    y: Seq<bool>,
)
    requires
        x.len() == a.len(),
        y.len() == b.len(),
    ensures
        active(a + b, is_new_session, x + y) == active(a, is_new_session, x) + active(
            b,
            is_new_session,
            y,
        ),
    decreases b.len(),
{
    if b.len() == 0 {
        assert(a + b =~= a);
        assert(x + y =~= x);
        assert(active(a, is_new_session, x) + active(b, is_new_session, y) =~= active(
            a,
            is_new_session,
            x,
        ));
    } else {
        assert((a + b).drop_last() =~= a + b.drop_last());
        assert((x + y).drop_last() =~= x + y.drop_last());
        lemma_active_parts(a, b.drop_last(), is_new_session, x, y.drop_last());
        assert(active(a + b, is_new_session, x + y) =~= active(a, is_new_session, x) + active(
            b,
            is_new_session,
            y,
        ));
    }
}

/// Two lists of reminders, one behind the other: what applies of each does not depend
/// on the other, the order of the lists is kept, and on each side of the prompt what
/// the second says stands behind what the first says.
pub proof fn law_reminders_add_up(
    a: Seq<ReminderView>,
    b: Seq<ReminderView>,
    is_new_session: bool,
    x: Seq<bool>,
    y: Seq<bool>,
    prompt: Seq<char>,
)
    requires
        x.len() == a.len(),
        y.len() == b.len(),
    ensures
        ({
            let first = active(a, is_new_session, x);
            let second = active(b, is_new_session, y);
            let both = active(a + b, is_new_session, x + y);
            &&& both == first + second
            &&& prompts(both) == prompts(first) + prompts(second)
            &&& reminded(prompt, both) == said(first, Timing::Pre) + reminded(
                prompt + said(first, Timing::Post),
                second,
            )
        }),
{
    let first = active(a, is_new_session, x);
    let second = active(b, is_new_session, y);
    lemma_active_parts(a, b, is_new_session, x, y);
    lemma_said_parts(first, second, Timing::Pre);
    lemma_said_parts(first, second, Timing::Post);
    assert(prompts(first + second) =~= prompts(first) + prompts(second));
    assert(reminded(prompt, first + second) =~= said(first, Timing::Pre) + reminded(
        prompt + said(first, Timing::Post),
        second,
    ));
}

} // verus!
