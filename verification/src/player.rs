use vstd::prelude::*;

verus! {

/// The persistent player profile: experience, revive count and high score.
/// Loading and storing it is the caller's concern; this type is the plain
/// record.
#[derive(Clone, Copy, Debug, PartialEq, Eq, Structural)]
pub struct Player {
    exp: u32,
    revive: u32,
    highscore: u32,
}

impl Player {
    pub closed spec fn spec_exp(&self) -> u32 {
        self.exp
    }

    pub closed spec fn spec_revive(&self) -> u32 {
        self.revive
    }

    pub closed spec fn spec_highscore(&self) -> u32 {
        self.highscore
    }

    pub fn new(exp: u32, revive: u32, highscore: u32) -> (p: Player)
        ensures
            p.spec_exp() == exp,
            p.spec_revive() == revive,
            p.spec_highscore() == highscore,
    {
        Player { exp, revive, highscore }
    }

    pub fn set_exp(&mut self, value: u32)
        ensures
            final(self).spec_exp() == value,
            final(self).spec_revive() == old(self).spec_revive(),
            final(self).spec_highscore() == old(self).spec_highscore(),
    {
        self.exp = value;
    }

    pub fn set_revive(&mut self, value: u32)
        ensures
            final(self).spec_revive() == value,
            final(self).spec_exp() == old(self).spec_exp(),
            final(self).spec_highscore() == old(self).spec_highscore(),
    {
        self.revive = value;
    }

    pub fn set_highscore(&mut self, value: u32)
        ensures
            final(self).spec_highscore() == value,
            final(self).spec_exp() == old(self).spec_exp(),
            final(self).spec_revive() == old(self).spec_revive(),
    {
        self.highscore = value;
    }

    pub fn exp(&self) -> (v: u32)
        ensures
            v == self.spec_exp(),
    {
        self.exp
    }

    pub fn revive(&self) -> (v: u32)
        ensures
            v == self.spec_revive(),
    {
        self.revive
    }

    pub fn highscore(&self) -> (v: u32)
        ensures
            v == self.spec_highscore(),
    {
        self.highscore
    }
}

} // verus!
