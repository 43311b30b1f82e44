//! A parsed request in textual form: what kind of command it is, its verb,
//! its key and the rest of its arguments.

use vstd::prelude::*;
use vstd::string::StringExecFns;

verus! {

#[derive(Debug)]
pub struct RedisCommand {
    command_type: String,
    target: String,
    action: String,
    params: Vec<String>,
}

/// The parameters joined by single spaces.
pub open spec fn joined(params: Seq<Seq<char>>) -> Seq<char>
    decreases params.len(),
{
    if params.len() == 0 {
        Seq::empty()
    } else if params.len() == 1 {
        params[0]
    } else {
        joined(params.drop_last()) + " "@ + params.last()
    }
}

impl RedisCommand {
    pub fn new(command_type: String, target: String, action: String, params: Vec<String>) -> (r: Self)
        ensures
            r.command_type_text() == command_type@,
            r.target_text() == target@,
            r.action_text() == action@,
            r.params_text() == params@.map_values(|p: String| p@),
    {
        RedisCommand { command_type, target, action, params }
    }

    pub closed spec fn command_type_text(&self) -> Seq<char> {
        self.command_type@
    }

    pub closed spec fn target_text(&self) -> Seq<char> {
        self.target@
    }

    pub closed spec fn action_text(&self) -> Seq<char> {
        self.action@
    }

    pub closed spec fn params_text(&self) -> Seq<Seq<char>> {
        self.params@.map_values(|p: String| p@)
    }

    /// `<type> <target> <action> <params joined by spaces>`
    pub fn to_string(&self) -> (r: String)
        ensures
            r@ == self.command_type_text() + " "@ + self.target_text() + " "@ + self.action_text() + " "@
                + joined(self.params_text()),
    {
        let mut out = self.command_type.clone();
        out.append(" ");
        out.append(self.target.as_str());
        out.append(" ");
        out.append(self.action.as_str());
        out.append(" ");
        let ghost head = out@;
        let mut i: usize = 0;
        while i < self.params.len()
            invariant
                i <= self.params@.len(),
                out@ == head + joined(self.params_text().subrange(0, i as int)),
            decreases self.params@.len() - i,
        {
            if i > 0 {
                out.append(" ");
            }
            out.append(self.params[i].as_str());
            let ghost done = self.params_text().subrange(0, i + 1);
            assert(done.drop_last() =~= self.params_text().subrange(0, i as int));
            proof {
                if i == 0 {
                    assert(joined(self.params_text().subrange(0, 0)) =~= Seq::<char>::empty());
                    assert(joined(done) == done[0]);
                }
            }
            i = i + 1;
        }
        assert(self.params_text().subrange(0, self.params@.len() as int) =~= self.params_text());
        out
    }

    pub fn get_command_type(&self) -> (r: &str)
        ensures
            r@ == self.command_type_text(),
    {
        self.command_type.as_str()
    }

    pub fn get_target(&self) -> (r: &str)
        ensures
            r@ == self.target_text(),
    {
        self.target.as_str()
    }

    pub fn get_action(&self) -> (r: &str)
        ensures
            r@ == self.action_text(),
    {
        self.action.as_str()
    }

    pub fn get_params(&self) -> (r: &[String])
        ensures
            r@.map_values(|p: String| p@) == self.params_text(),
    {
        self.params.as_slice()
    }
}

} // verus!
