//! An emotion-bound NFT whose mood changes with the owner's actions.
use vstd::prelude::*;
use crate::text::{decimal, push_decimal, push_text, same_text};

verus! {

pub struct ThringletNFT {
    pub id: String,
    pub name: String,
    /// Intended to stay within -100 ..= 100.
    pub emotion: i32,
    /// Intended to stay within 0 ..= 100.
    pub corruption: i32,
    pub bonded: bool,
}

/// Emotion and corruption after `action`: "talk" lifts the emotion by 5;
/// "purge" lowers it by 30 and adds 25 corruption; "reset" clears both; any
/// other action, "inject" included, changes nothing.
pub open spec fn after_action(emotion: int, corruption: int, action: Seq<char>) -> (int, int) {
    if action == "talk"@ {
        (emotion + 5, corruption)
    } else if action == "purge"@ {
        (emotion - 30, corruption + 25)
    } else if action == "reset"@ {
        (0, 0)
    } else {
        (emotion, corruption)
    }
}

/// The JSON text that describes a thringlet.
pub open spec fn metadata_text(name: Seq<char>, emotion: int, corruption: int, bonded: bool) -> Seq<char> {
    "{\"name\":\""@ + name + "\", \"emotion\":"@ + decimal(emotion) + ", \"corruption\":"@ + decimal(
        corruption,
    ) + ", \"bonded\":"@ + (if bonded {
        "true"@
    } else {
        "false"@
    }) + "}"@
}

impl ThringletNFT {
    pub fn new(id: &str, name: &str) -> (r: Self)
        ensures
            r.id@ == id@,
            r.name@ == name@,
            r.emotion == 0,
            r.corruption == 0,
            !r.bonded,
    {
        ThringletNFT { id: id.to_owned(), name: name.to_owned(), emotion: 0, corruption: 0, bonded: false }
    }

    pub fn interact(&mut self, action: &str)
        requires
            i32::MIN <= after_action(old(self).emotion as int, old(self).corruption as int, action@).0 <= i32::MAX,
            i32::MIN <= after_action(old(self).emotion as int, old(self).corruption as int, action@).1 <= i32::MAX,
        ensures
            final(self).emotion as int == after_action(old(self).emotion as int, old(self).corruption as int, action@).0,
            final(self).corruption as int == after_action(old(self).emotion as int, old(self).corruption as int, action@).1,
            final(self).id == old(self).id,
            final(self).name == old(self).name,
            final(self).bonded == old(self).bonded,
    {
        proof {
            reveal_strlit("talk");
            reveal_strlit("purge");
            reveal_strlit("reset");
        }
        if same_text(action, "talk") {
            self.emotion = self.emotion + 5;
        } else if same_text(action, "purge") {
            self.emotion = self.emotion - 30;
            self.corruption = self.corruption + 25;
        } else if same_text(action, "reset") {
            self.emotion = 0;
            self.corruption = 0;
        }
    }

    pub fn to_metadata(&self) -> (r: String)
        ensures
            r@ == metadata_text(self.name@, self.emotion as int, self.corruption as int, self.bonded),
    {
        let mut s = String::new();
        push_text(&mut s, "{\"name\":\"");
        push_text(&mut s, self.name.as_str());
        push_text(&mut s, "\", \"emotion\":");
        push_decimal(&mut s, self.emotion);
        push_text(&mut s, ", \"corruption\":");
        push_decimal(&mut s, self.corruption);
        push_text(&mut s, ", \"bonded\":");
        if self.bonded {
            push_text(&mut s, "true");
        } else {
            push_text(&mut s, "false");
        }
        push_text(&mut s, "}");
        proof {
            assert(s@ =~= metadata_text(self.name@, self.emotion as int, self.corruption as int, self.bonded));
        }
        s
    }
}

} // verus!
