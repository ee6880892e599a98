//! Errors with the contexts they came through.
use vstd::prelude::*;
use vstd::string::*;

verus! {

/// An error: what failed, and behind it each cause in turn.
#[derive(Debug, PartialEq, Eq)]
pub struct Report {
    /// The outermost context first, the cause last.
    pub messages: Vec<String>,
}

impl View for Report {
    type V = Seq<Seq<char>>;

    open spec fn view(&self) -> Seq<Seq<char>> {
        self.messages@.map_values(|message: String| message@)
    }
}

/// Every message of an error, with a colon and a space between them.
pub open spec fn in_full(messages: Seq<Seq<char>>) -> Seq<char>
    decreases messages.len(),
{
    if messages.len() == 0 {
        ""@
    } else if messages.len() == 1 {
        messages[0]
    } else {
        in_full(messages.drop_last()) + ": "@ + messages.last()
    }
}

impl Report {
    /// An error without a context.
    pub fn new(message: String) -> (report: Report)
        ensures
            report@ == seq![message@],
    {
        let mut messages: Vec<String> = Vec::new();
        messages.push(message);
        let report = Report { messages };
        assert(report@ =~= seq![message@]);
        report
    }

    /// The error in a context.
    pub fn context(self, message: String) -> (report: Report)
        ensures
            report@ == seq![message@] + self@,
    {
        let ghost before = self@;
        let mut messages: Vec<String> = self.messages;
        messages.insert(0, message);
        let report = Report { messages };
        assert(report@ =~= seq![message@] + before);
        report
    }

    /// Writes every message out, with a colon and a space between them.
    pub fn full_text(&self) -> (text: String)
        ensures
            text@ == in_full(self@),
    {
        let ghost all = self@;
        let mut text: String = String::new();
        let mut position: usize = 0;
        proof {
            reveal_strlit("");
            assert(all.take(0) =~= Seq::empty());
            assert(text@ =~= in_full(all.take(0)));
        }
        while position < self.messages.len()
            invariant
                position <= self.messages@.len(),
                all == self@,
                text@ == in_full(all.take(position as int)),
            decreases self.messages@.len() - position,
        {
            proof {
                let longer = all.take(position + 1);
                assert(longer.drop_last() =~= all.take(position as int));
                assert(longer.last() == self.messages@[position as int]@);
                reveal_strlit("");
            }
            if position > 0 {
                text.append(": ");
            }
            text.append(self.messages[position].as_str());
            position = position + 1;
            assert(text@ =~= in_full(all.take(position as int)));
        }
        assert(all.take(all.len() as int) =~= all);
        text
    }
}

/// The contents of what something came to.
pub open spec fn reported<T>(result: Result<T, Report>) -> Result<T, Seq<Seq<char>>> {
    match result {
        Ok(value) => Ok(value),
        Err(report) => Err(report@),
    }
}

/// A context says nothing of what is already known of an error: the causes stay, in their order.
pub proof fn a_context_keeps_the_causes(messages: Seq<Seq<char>>, context: Seq<char>)
    requires
        messages.len() > 0,
    ensures
        in_full(seq![context] + messages) == context + ": "@ + in_full(messages),
    decreases messages.len(),
{
    let longer = seq![context] + messages;
    if messages.len() == 1 {
        assert(longer.drop_last() =~= seq![context]);
        assert(in_full(longer.drop_last()) == context);
        assert(longer.last() == messages[0]);
    } else {
        let shorter = messages.drop_last();
        a_context_keeps_the_causes(shorter, context);
        assert(longer.drop_last() =~= seq![context] + shorter);
        assert(longer.last() == messages.last());
        assert(in_full(longer) =~= context + ": "@ + in_full(messages));
    }
}

} // verus!
