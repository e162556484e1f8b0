//! The trace of an analysis: the messages that its stages record, in order.
//!
//! The logger only keeps the messages. Showing them is left to the program
//! that uses the library.

use vstd::prelude::*;
use vstd::string::*;

verus! {

/// Keeps the messages that were recorded so far.
#[derive(Debug, Clone)]
pub struct ConsoleLogger {
    pub log_history: Vec<String>,
}

impl View for ConsoleLogger {
    type V = Seq<Seq<char>>;

    open spec fn view(&self) -> Seq<Seq<char>> {
        self.log_history.deep_view()
    }
}

/// The text that `log_error` records for a message.
pub open spec fn error_line(message: Seq<char>) -> Seq<char> {
    "Error: "@ + message
}

impl ConsoleLogger {
    /// A logger without messages.
    pub fn new() -> (logger: Self)
        ensures
            logger@ == Seq::<Seq<char>>::empty(),
    {
        let logger = ConsoleLogger { log_history: Vec::new() };
        assert(logger@ =~= Seq::<Seq<char>>::empty());
        logger
    }

    /// Records an event.
    pub fn log_message(&mut self, message: &str)
        ensures
            final(self)@ == old(self)@.push(message@),
    {
        self.log_history.push(message.to_owned());
        assert(self@ =~= old(self)@.push(message@));
    }

    /// Records an error: the message behind the word "Error: ".
    pub fn log_error(&mut self, message: &str)
        ensures
            final(self)@ == old(self)@.push(error_line(message@)),
    {
        let mut line: String = "Error: ".to_owned();
        line.append(message);
        self.log_history.push(line);
        assert(self@ =~= old(self)@.push(error_line(message@)));
    }

    /// A copy of the messages that were recorded so far.
    pub fn history(&self) -> (messages: Vec<String>)
        ensures
            messages.deep_view() == self@,
    {
        let mut messages: Vec<String> = Vec::new();
        let mut i: usize = 0;
        while i < self.log_history.len()
            invariant
                i <= self.log_history.len(),
                messages.deep_view() == self@.take(i as int),
            decreases self.log_history.len() - i,
        {
            let ghost before = messages.deep_view();
            messages.push(self.log_history[i].clone());
            assert(messages.deep_view() =~= before.push(self.log_history@[i as int]@));
            i += 1;
            assert(self@.take(i as int) =~= before.push(self.log_history@[i - 1]@));
        }
        assert(self@.take(self.log_history.len() as int) =~= self@);
        messages
    }
}

} // verus!
