use vstd::prelude::*;

verus! {

/// A basic block: a name and its instructions as text.
pub struct Block {
    pub name: String,
    pub instructions: Vec<String>,
}

/// The first `n` lines joined by newlines.
pub open spec fn lines_text(ls: Seq<String>, n: nat) -> Seq<char>
    decreases n,
{
    if n == 0 || n > ls.len() {
        seq![]
    } else {
        (if n == 1 { seq![] } else { lines_text(ls, (n - 1) as nat) + "\n"@ }) + ls[n - 1]@
    }
}

impl Block {
    /// The text of this block: `:name` on its own line, then the
    /// instructions one per line.
    pub fn to_string(&self) -> (r: String)
        ensures
            r@ == ":"@ + self.name@ + "\n"@ + lines_text(self.instructions@, self.instructions@.len()),
    {
        let mut result = ":".to_owned();
        result.append(self.name.as_str());
        result.append("\n");
        let ghost head = result@;
        let mut i: usize = 0;
        while i < self.instructions.len()
            invariant
                i <= self.instructions@.len(),
                result@ == head + lines_text(self.instructions@, i as nat),
            decreases self.instructions@.len() - i,
        {
            let ghost before = lines_text(self.instructions@, i as nat);
            if i > 0 {
                result.append("\n");
            }
            result.append(self.instructions[i].as_str());
            i += 1;
            assert(result@ =~= head + ((if i == 1 { seq![] } else { before + "\n"@ }) + self.instructions@[i - 1]@));
        }
        result
    }
}

} // verus!
