//! The character tables of Arabic script that the library works from.
use vstd::prelude::*;
use crate::text;

verus! {

/// A diacritic mark (haraka), in its plain or presentation form.
pub open spec fn spec_is_haraka(c: char) -> bool {
    match c {
        '\u{064B}'..='\u{0652}' | '\u{FC5E}'..='\u{FC63}' | '\u{FCF2}'..='\u{FCF4}' | '\u{FD3C}'
        | '\u{FD3D}' | '\u{FE70}'..='\u{FE72}' | '\u{FE74}' | '\u{FE76}'..='\u{FE7F}' => true,
        _ => false,
    }
}

/// A diacritic mark (haraka), in its plain or presentation form.
#[verifier::when_used_as_spec(spec_is_haraka)]
pub fn is_haraka(c: char) -> (r: bool)
    ensures
        r == spec_is_haraka(c),
{
    match c {
        '\u{064B}'..='\u{0652}' | '\u{FC5E}'..='\u{FC63}' | '\u{FCF2}'..='\u{FCF4}' | '\u{FD3C}'
        | '\u{FD3D}' | '\u{FE70}'..='\u{FE72}' | '\u{FE74}' | '\u{FE76}'..='\u{FE7F}' => true,
        _ => false,
    }
}

/// A letter that joins to the letter after it as well as to the one before it.
pub open spec fn spec_connects_both(c: char) -> bool {
    match c {
        '\u{0626}' | '\u{0628}' | '\u{062A}'..='\u{062E}' | '\u{0633}'..='\u{063A}'
        | '\u{0640}'..='\u{0647}' | '\u{064A}' | '\u{0679}'..='\u{067B}'
        | '\u{067E}'..='\u{0680}' | '\u{0683}' | '\u{0684}' | '\u{0686}' | '\u{0687}'
        | '\u{06A4}' | '\u{06A6}' | '\u{06A9}' | '\u{06AD}' | '\u{06AF}' | '\u{06B1}'
        | '\u{06B3}' | '\u{06BA}' | '\u{06BB}' | '\u{06BE}' | '\u{06C1}' | '\u{06CC}'
        | '\u{06D0}' => true,
        _ => false,
    }
}

/// A letter that joins to the letter after it as well as to the one before it.
#[verifier::when_used_as_spec(spec_connects_both)]
pub fn connects_both(c: char) -> (r: bool)
    ensures
        r == spec_connects_both(c),
{
    match c {
        '\u{0626}' | '\u{0628}' | '\u{062A}'..='\u{062E}' | '\u{0633}'..='\u{063A}'
        | '\u{0640}'..='\u{0647}' | '\u{064A}' | '\u{0679}'..='\u{067B}'
        | '\u{067E}'..='\u{0680}' | '\u{0683}' | '\u{0684}' | '\u{0686}' | '\u{0687}'
        | '\u{06A4}' | '\u{06A6}' | '\u{06A9}' | '\u{06AD}' | '\u{06AF}' | '\u{06B1}'
        | '\u{06B3}' | '\u{06BA}' | '\u{06BB}' | '\u{06BE}' | '\u{06C1}' | '\u{06CC}'
        | '\u{06D0}' => true,
        _ => false,
    }
}

/// A letter that joins to the letter before it.
pub open spec fn spec_connects(c: char) -> bool {
    match c {
        '\u{0622}'..='\u{063A}' | '\u{0640}'..='\u{064A}' | '\u{0671}' | '\u{0679}'..='\u{067B}'
        | '\u{067E}'..='\u{0680}' | '\u{0683}' | '\u{0684}' | '\u{0686}'..='\u{0688}'
        | '\u{068C}'..='\u{068E}' | '\u{0691}' | '\u{0698}' | '\u{06A4}' | '\u{06A6}'
        | '\u{06A9}' | '\u{06AD}' | '\u{06AF}' | '\u{06B1}' | '\u{06B3}' | '\u{06BA}'
        | '\u{06BB}' | '\u{06BE}' | '\u{06C0}' | '\u{06C1}' | '\u{06C5}'..='\u{06C9}'
        | '\u{06CB}' | '\u{06CC}' | '\u{06D0}' | '\u{06D2}' | '\u{06D3}' => true,
        _ => false,
    }
}

/// A letter that joins to the letter before it.
#[verifier::when_used_as_spec(spec_connects)]
pub fn connects(c: char) -> (r: bool)
    ensures
        r == spec_connects(c),
{
    match c {
        '\u{0622}'..='\u{063A}' | '\u{0640}'..='\u{064A}' | '\u{0671}' | '\u{0679}'..='\u{067B}'
        | '\u{067E}'..='\u{0680}' | '\u{0683}' | '\u{0684}' | '\u{0686}'..='\u{0688}'
        | '\u{068C}'..='\u{068E}' | '\u{0691}' | '\u{0698}' | '\u{06A4}' | '\u{06A6}'
        | '\u{06A9}' | '\u{06AD}' | '\u{06AF}' | '\u{06B1}' | '\u{06B3}' | '\u{06BA}'
        | '\u{06BB}' | '\u{06BE}' | '\u{06C0}' | '\u{06C1}' | '\u{06C5}'..='\u{06C9}'
        | '\u{06CB}' | '\u{06CC}' | '\u{06D0}' | '\u{06D2}' | '\u{06D3}' => true,
        _ => false,
    }
}

/// The four presentation forms of a letter: isolated, joined to the letter
/// before, joined to the letter after, joined on both sides.
pub open spec fn spec_presentation_forms(c: char) -> Option<(char, char, char, char)> {
    match c {
        '\u{0621}' => Some(('\u{FE80}', '\u{FE80}', '\u{FE80}', '\u{FE80}')),
        '\u{0622}' => Some(('\u{FE81}', '\u{FE82}', '\u{FE81}', '\u{FE82}')),
        '\u{0623}' => Some(('\u{FE83}', '\u{FE84}', '\u{FE83}', '\u{FE84}')),
        '\u{0624}' => Some(('\u{FE85}', '\u{FE86}', '\u{FE85}', '\u{FE86}')),
        '\u{0625}' => Some(('\u{FE87}', '\u{FE88}', '\u{FE87}', '\u{FE88}')),
        '\u{0626}' => Some(('\u{FE89}', '\u{FE8A}', '\u{FE8B}', '\u{FE8C}')),
        '\u{0627}' => Some(('\u{FE8D}', '\u{FE8E}', '\u{FE8D}', '\u{FE8E}')),
        '\u{0628}' => Some(('\u{FE8F}', '\u{FE90}', '\u{FE91}', '\u{FE92}')),
        '\u{0629}' => Some(('\u{FE93}', '\u{FE94}', '\u{FE93}', '\u{FE94}')),
        '\u{062A}' => Some(('\u{FE95}', '\u{FE96}', '\u{FE97}', '\u{FE98}')),
        '\u{062B}' => Some(('\u{FE99}', '\u{FE9A}', '\u{FE9B}', '\u{FE9C}')),
        '\u{062C}' => Some(('\u{FE9D}', '\u{FE9E}', '\u{FE9F}', '\u{FEA0}')),
        '\u{062D}' => Some(('\u{FEA1}', '\u{FEA2}', '\u{FEA3}', '\u{FEA4}')),
        '\u{062E}' => Some(('\u{FEA5}', '\u{FEA6}', '\u{FEA7}', '\u{FEA8}')),
        '\u{062F}' => Some(('\u{FEA9}', '\u{FEAA}', '\u{FEA9}', '\u{FEAA}')),
        '\u{0630}' => Some(('\u{FEAB}', '\u{FEAC}', '\u{FEAB}', '\u{FEAC}')),
        '\u{0631}' => Some(('\u{FEAD}', '\u{FEAE}', '\u{FEAD}', '\u{FEAE}')),
        '\u{0632}' => Some(('\u{FEAF}', '\u{FEB0}', '\u{FEAF}', '\u{FEB0}')),
        '\u{0633}' => Some(('\u{FEB1}', '\u{FEB2}', '\u{FEB3}', '\u{FEB4}')),
        '\u{0634}' => Some(('\u{FEB5}', '\u{FEB6}', '\u{FEB7}', '\u{FEB8}')),
        '\u{0635}' => Some(('\u{FEB9}', '\u{FEBA}', '\u{FEBB}', '\u{FEBC}')),
        '\u{0636}' => Some(('\u{FEBD}', '\u{FEBE}', '\u{FEBF}', '\u{FEC0}')),
        '\u{0637}' => Some(('\u{FEC1}', '\u{FEC2}', '\u{FEC3}', '\u{FEC4}')),
        '\u{0638}' => Some(('\u{FEC5}', '\u{FEC6}', '\u{FEC7}', '\u{FEC8}')),
        '\u{0639}' => Some(('\u{FEC9}', '\u{FECA}', '\u{FECB}', '\u{FECC}')),
        '\u{063A}' => Some(('\u{FECD}', '\u{FECE}', '\u{FECF}', '\u{FED0}')),
        '\u{0641}' => Some(('\u{FED1}', '\u{FED2}', '\u{FED3}', '\u{FED4}')),
        '\u{0642}' => Some(('\u{FED5}', '\u{FED6}', '\u{FED7}', '\u{FED8}')),
        '\u{0643}' => Some(('\u{FED9}', '\u{FEDA}', '\u{FEDB}', '\u{FEDC}')),
        '\u{0644}' => Some(('\u{FEDD}', '\u{FEDE}', '\u{FEDF}', '\u{FEE0}')),
        '\u{0645}' => Some(('\u{FEE1}', '\u{FEE2}', '\u{FEE3}', '\u{FEE4}')),
        '\u{0646}' => Some(('\u{FEE5}', '\u{FEE6}', '\u{FEE7}', '\u{FEE8}')),
        '\u{0647}' => Some(('\u{FEE9}', '\u{FEEA}', '\u{FEEB}', '\u{FEEC}')),
        '\u{0648}' => Some(('\u{FEED}', '\u{FEEE}', '\u{FEED}', '\u{FEEE}')),
        '\u{0649}' => Some(('\u{FEEF}', '\u{FEF0}', '\u{FEEF}', '\u{FEF0}')),
        '\u{064A}' => Some(('\u{FEF1}', '\u{FEF2}', '\u{FEF3}', '\u{FEF4}')),
        '\u{064B}' => Some(('\u{FE70}', '\u{FE70}', '\u{FE70}', '\u{FE70}')),
        '\u{064C}' => Some(('\u{FE72}', '\u{FE72}', '\u{FE72}', '\u{FE72}')),
        '\u{064D}' => Some(('\u{FE74}', '\u{FE74}', '\u{FE74}', '\u{FE74}')),
        '\u{064E}' => Some(('\u{FE76}', '\u{FE76}', '\u{FE76}', '\u{FE76}')),
        '\u{064F}' => Some(('\u{FE78}', '\u{FE78}', '\u{FE78}', '\u{FE78}')),
        '\u{0650}' => Some(('\u{FE7A}', '\u{FE7A}', '\u{FE7A}', '\u{FE7A}')),
        '\u{0651}' => Some(('\u{FE7C}', '\u{FE7C}', '\u{FE7C}', '\u{FE7C}')),
        '\u{0652}' => Some(('\u{FE7E}', '\u{FE7E}', '\u{FE7E}', '\u{FE7E}')),
        '\u{0671}' => Some(('\u{FB50}', '\u{FB51}', '\u{FB50}', '\u{FB51}')),
        '\u{0679}' => Some(('\u{FB66}', '\u{FB67}', '\u{FB68}', '\u{FB69}')),
        '\u{067A}' => Some(('\u{FB5E}', '\u{FB5F}', '\u{FB60}', '\u{FB61}')),
        '\u{067B}' => Some(('\u{FB52}', '\u{FB53}', '\u{FB54}', '\u{FB55}')),
        '\u{067E}' => Some(('\u{FB56}', '\u{FB57}', '\u{FB58}', '\u{FB59}')),
        '\u{067F}' => Some(('\u{FB62}', '\u{FB63}', '\u{FB64}', '\u{FB65}')),
        '\u{0680}' => Some(('\u{FB5A}', '\u{FB5B}', '\u{FB5C}', '\u{FB5D}')),
        '\u{0683}' => Some(('\u{FB76}', '\u{FB77}', '\u{FB78}', '\u{FB79}')),
        '\u{0684}' => Some(('\u{FB72}', '\u{FB73}', '\u{FB74}', '\u{FB75}')),
        '\u{0686}' => Some(('\u{FB7A}', '\u{FB7B}', '\u{FB7C}', '\u{FB7D}')),
        '\u{0687}' => Some(('\u{FB7E}', '\u{FB7F}', '\u{FB80}', '\u{FB81}')),
        '\u{0688}' => Some(('\u{FB88}', '\u{FB89}', '\u{FB88}', '\u{FB89}')),
        '\u{068C}' => Some(('\u{FB84}', '\u{FB85}', '\u{FB84}', '\u{FB85}')),
        '\u{068D}' => Some(('\u{FB82}', '\u{FB83}', '\u{FB82}', '\u{FB83}')),
        '\u{068E}' => Some(('\u{FB86}', '\u{FB87}', '\u{FB86}', '\u{FB87}')),
        '\u{0691}' => Some(('\u{FB8C}', '\u{FB8D}', '\u{FB8C}', '\u{FB8D}')),
        '\u{0698}' => Some(('\u{FB8A}', '\u{FB8B}', '\u{FB8A}', '\u{FB8B}')),
        '\u{06A4}' => Some(('\u{FB6A}', '\u{FB6B}', '\u{FB6C}', '\u{FB6D}')),
        '\u{06A6}' => Some(('\u{FB6E}', '\u{FB6F}', '\u{FB70}', '\u{FB71}')),
        '\u{06A9}' => Some(('\u{FB8E}', '\u{FB8F}', '\u{FB90}', '\u{FB91}')),
        '\u{06AD}' => Some(('\u{FBD3}', '\u{FBD4}', '\u{FBD5}', '\u{FBD6}')),
        '\u{06AF}' => Some(('\u{FB92}', '\u{FB93}', '\u{FB94}', '\u{FB95}')),
        '\u{06B1}' => Some(('\u{FB9A}', '\u{FB9B}', '\u{FB9C}', '\u{FB9D}')),
        '\u{06B3}' => Some(('\u{FB96}', '\u{FB97}', '\u{FB98}', '\u{FB99}')),
        '\u{06BA}' => Some(('\u{FB9E}', '\u{FB9F}', '\u{FBE8}', '\u{FBE9}')),
        '\u{06BB}' => Some(('\u{FBA0}', '\u{FBA1}', '\u{FBA2}', '\u{FBA3}')),
        '\u{06BE}' => Some(('\u{FBAA}', '\u{FBAB}', '\u{FBAC}', '\u{FBAD}')),
        '\u{06C0}' => Some(('\u{FBA4}', '\u{FBA5}', '\u{FBA4}', '\u{FBA5}')),
        '\u{06C1}' => Some(('\u{FBA6}', '\u{FBA7}', '\u{FBA8}', '\u{FBA9}')),
        '\u{06C5}' => Some(('\u{FBE0}', '\u{FBE1}', '\u{FBE0}', '\u{FBE1}')),
        '\u{06C6}' => Some(('\u{FBD9}', '\u{FBDA}', '\u{FBD9}', '\u{FBDA}')),
        '\u{06C7}' => Some(('\u{FBD7}', '\u{FBD8}', '\u{FBD7}', '\u{FBD8}')),
        '\u{06C8}' => Some(('\u{FBDB}', '\u{FBDC}', '\u{FBDB}', '\u{FBDC}')),
        '\u{06C9}' => Some(('\u{FBE2}', '\u{FBE3}', '\u{FBE2}', '\u{FBE3}')),
        '\u{06CB}' => Some(('\u{FBDE}', '\u{FBDF}', '\u{FBDE}', '\u{FBDF}')),
        '\u{06CC}' => Some(('\u{FBFC}', '\u{FBFD}', '\u{FBFE}', '\u{FBFF}')),
        '\u{06D0}' => Some(('\u{FBE4}', '\u{FBE5}', '\u{FBE6}', '\u{FBE7}')),
        '\u{06D2}' => Some(('\u{FBAE}', '\u{FBAF}', '\u{FBAE}', '\u{FBAF}')),
        '\u{06D3}' => Some(('\u{FBB0}', '\u{FBB1}', '\u{FBB0}', '\u{FBB1}')),
        _ => None,
    }
}

/// The four presentation forms of a letter, when it has them.
#[verifier::when_used_as_spec(spec_presentation_forms)]
pub fn presentation_forms(c: char) -> (r: Option<(char, char, char, char)>)
    ensures
        r == spec_presentation_forms(c),
{
    match c {
        '\u{0621}' => Some(('\u{FE80}', '\u{FE80}', '\u{FE80}', '\u{FE80}')),
        '\u{0622}' => Some(('\u{FE81}', '\u{FE82}', '\u{FE81}', '\u{FE82}')),
        '\u{0623}' => Some(('\u{FE83}', '\u{FE84}', '\u{FE83}', '\u{FE84}')),
        '\u{0624}' => Some(('\u{FE85}', '\u{FE86}', '\u{FE85}', '\u{FE86}')),
        '\u{0625}' => Some(('\u{FE87}', '\u{FE88}', '\u{FE87}', '\u{FE88}')),
        '\u{0626}' => Some(('\u{FE89}', '\u{FE8A}', '\u{FE8B}', '\u{FE8C}')),
        '\u{0627}' => Some(('\u{FE8D}', '\u{FE8E}', '\u{FE8D}', '\u{FE8E}')),
        '\u{0628}' => Some(('\u{FE8F}', '\u{FE90}', '\u{FE91}', '\u{FE92}')),
        '\u{0629}' => Some(('\u{FE93}', '\u{FE94}', '\u{FE93}', '\u{FE94}')),
        '\u{062A}' => Some(('\u{FE95}', '\u{FE96}', '\u{FE97}', '\u{FE98}')),
        '\u{062B}' => Some(('\u{FE99}', '\u{FE9A}', '\u{FE9B}', '\u{FE9C}')),
        '\u{062C}' => Some(('\u{FE9D}', '\u{FE9E}', '\u{FE9F}', '\u{FEA0}')),
        '\u{062D}' => Some(('\u{FEA1}', '\u{FEA2}', '\u{FEA3}', '\u{FEA4}')),
        '\u{062E}' => Some(('\u{FEA5}', '\u{FEA6}', '\u{FEA7}', '\u{FEA8}')),
        '\u{062F}' => Some(('\u{FEA9}', '\u{FEAA}', '\u{FEA9}', '\u{FEAA}')),
        '\u{0630}' => Some(('\u{FEAB}', '\u{FEAC}', '\u{FEAB}', '\u{FEAC}')),
        '\u{0631}' => Some(('\u{FEAD}', '\u{FEAE}', '\u{FEAD}', '\u{FEAE}')),
        '\u{0632}' => Some(('\u{FEAF}', '\u{FEB0}', '\u{FEAF}', '\u{FEB0}')),
        '\u{0633}' => Some(('\u{FEB1}', '\u{FEB2}', '\u{FEB3}', '\u{FEB4}')),
        '\u{0634}' => Some(('\u{FEB5}', '\u{FEB6}', '\u{FEB7}', '\u{FEB8}')),
        '\u{0635}' => Some(('\u{FEB9}', '\u{FEBA}', '\u{FEBB}', '\u{FEBC}')),
        '\u{0636}' => Some(('\u{FEBD}', '\u{FEBE}', '\u{FEBF}', '\u{FEC0}')),
        '\u{0637}' => Some(('\u{FEC1}', '\u{FEC2}', '\u{FEC3}', '\u{FEC4}')),
        '\u{0638}' => Some(('\u{FEC5}', '\u{FEC6}', '\u{FEC7}', '\u{FEC8}')),
        '\u{0639}' => Some(('\u{FEC9}', '\u{FECA}', '\u{FECB}', '\u{FECC}')),
        '\u{063A}' => Some(('\u{FECD}', '\u{FECE}', '\u{FECF}', '\u{FED0}')),
        '\u{0641}' => Some(('\u{FED1}', '\u{FED2}', '\u{FED3}', '\u{FED4}')),
        '\u{0642}' => Some(('\u{FED5}', '\u{FED6}', '\u{FED7}', '\u{FED8}')),
        '\u{0643}' => Some(('\u{FED9}', '\u{FEDA}', '\u{FEDB}', '\u{FEDC}')),
        '\u{0644}' => Some(('\u{FEDD}', '\u{FEDE}', '\u{FEDF}', '\u{FEE0}')),
        '\u{0645}' => Some(('\u{FEE1}', '\u{FEE2}', '\u{FEE3}', '\u{FEE4}')),
        '\u{0646}' => Some(('\u{FEE5}', '\u{FEE6}', '\u{FEE7}', '\u{FEE8}')),
        '\u{0647}' => Some(('\u{FEE9}', '\u{FEEA}', '\u{FEEB}', '\u{FEEC}')),
        '\u{0648}' => Some(('\u{FEED}', '\u{FEEE}', '\u{FEED}', '\u{FEEE}')),
        '\u{0649}' => Some(('\u{FEEF}', '\u{FEF0}', '\u{FEEF}', '\u{FEF0}')),
        '\u{064A}' => Some(('\u{FEF1}', '\u{FEF2}', '\u{FEF3}', '\u{FEF4}')),
        '\u{064B}' => Some(('\u{FE70}', '\u{FE70}', '\u{FE70}', '\u{FE70}')),
        '\u{064C}' => Some(('\u{FE72}', '\u{FE72}', '\u{FE72}', '\u{FE72}')),
        '\u{064D}' => Some(('\u{FE74}', '\u{FE74}', '\u{FE74}', '\u{FE74}')),
        '\u{064E}' => Some(('\u{FE76}', '\u{FE76}', '\u{FE76}', '\u{FE76}')),
        '\u{064F}' => Some(('\u{FE78}', '\u{FE78}', '\u{FE78}', '\u{FE78}')),
        '\u{0650}' => Some(('\u{FE7A}', '\u{FE7A}', '\u{FE7A}', '\u{FE7A}')),
        '\u{0651}' => Some(('\u{FE7C}', '\u{FE7C}', '\u{FE7C}', '\u{FE7C}')),
        '\u{0652}' => Some(('\u{FE7E}', '\u{FE7E}', '\u{FE7E}', '\u{FE7E}')),
        '\u{0671}' => Some(('\u{FB50}', '\u{FB51}', '\u{FB50}', '\u{FB51}')),
        '\u{0679}' => Some(('\u{FB66}', '\u{FB67}', '\u{FB68}', '\u{FB69}')),
        '\u{067A}' => Some(('\u{FB5E}', '\u{FB5F}', '\u{FB60}', '\u{FB61}')),
        '\u{067B}' => Some(('\u{FB52}', '\u{FB53}', '\u{FB54}', '\u{FB55}')),
        '\u{067E}' => Some(('\u{FB56}', '\u{FB57}', '\u{FB58}', '\u{FB59}')),
        '\u{067F}' => Some(('\u{FB62}', '\u{FB63}', '\u{FB64}', '\u{FB65}')),
        '\u{0680}' => Some(('\u{FB5A}', '\u{FB5B}', '\u{FB5C}', '\u{FB5D}')),
        '\u{0683}' => Some(('\u{FB76}', '\u{FB77}', '\u{FB78}', '\u{FB79}')),
        '\u{0684}' => Some(('\u{FB72}', '\u{FB73}', '\u{FB74}', '\u{FB75}')),
        '\u{0686}' => Some(('\u{FB7A}', '\u{FB7B}', '\u{FB7C}', '\u{FB7D}')),
        '\u{0687}' => Some(('\u{FB7E}', '\u{FB7F}', '\u{FB80}', '\u{FB81}')),
        '\u{0688}' => Some(('\u{FB88}', '\u{FB89}', '\u{FB88}', '\u{FB89}')),
        '\u{068C}' => Some(('\u{FB84}', '\u{FB85}', '\u{FB84}', '\u{FB85}')),
        '\u{068D}' => Some(('\u{FB82}', '\u{FB83}', '\u{FB82}', '\u{FB83}')),
        '\u{068E}' => Some(('\u{FB86}', '\u{FB87}', '\u{FB86}', '\u{FB87}')),
        '\u{0691}' => Some(('\u{FB8C}', '\u{FB8D}', '\u{FB8C}', '\u{FB8D}')),
        '\u{0698}' => Some(('\u{FB8A}', '\u{FB8B}', '\u{FB8A}', '\u{FB8B}')),
        '\u{06A4}' => Some(('\u{FB6A}', '\u{FB6B}', '\u{FB6C}', '\u{FB6D}')),
        '\u{06A6}' => Some(('\u{FB6E}', '\u{FB6F}', '\u{FB70}', '\u{FB71}')),
        '\u{06A9}' => Some(('\u{FB8E}', '\u{FB8F}', '\u{FB90}', '\u{FB91}')),
        '\u{06AD}' => Some(('\u{FBD3}', '\u{FBD4}', '\u{FBD5}', '\u{FBD6}')),
        '\u{06AF}' => Some(('\u{FB92}', '\u{FB93}', '\u{FB94}', '\u{FB95}')),
        '\u{06B1}' => Some(('\u{FB9A}', '\u{FB9B}', '\u{FB9C}', '\u{FB9D}')),
        '\u{06B3}' => Some(('\u{FB96}', '\u{FB97}', '\u{FB98}', '\u{FB99}')),
        '\u{06BA}' => Some(('\u{FB9E}', '\u{FB9F}', '\u{FBE8}', '\u{FBE9}')),
        '\u{06BB}' => Some(('\u{FBA0}', '\u{FBA1}', '\u{FBA2}', '\u{FBA3}')),
        '\u{06BE}' => Some(('\u{FBAA}', '\u{FBAB}', '\u{FBAC}', '\u{FBAD}')),
        '\u{06C0}' => Some(('\u{FBA4}', '\u{FBA5}', '\u{FBA4}', '\u{FBA5}')),
        '\u{06C1}' => Some(('\u{FBA6}', '\u{FBA7}', '\u{FBA8}', '\u{FBA9}')),
        '\u{06C5}' => Some(('\u{FBE0}', '\u{FBE1}', '\u{FBE0}', '\u{FBE1}')),
        '\u{06C6}' => Some(('\u{FBD9}', '\u{FBDA}', '\u{FBD9}', '\u{FBDA}')),
        '\u{06C7}' => Some(('\u{FBD7}', '\u{FBD8}', '\u{FBD7}', '\u{FBD8}')),
        '\u{06C8}' => Some(('\u{FBDB}', '\u{FBDC}', '\u{FBDB}', '\u{FBDC}')),
        '\u{06C9}' => Some(('\u{FBE2}', '\u{FBE3}', '\u{FBE2}', '\u{FBE3}')),
        '\u{06CB}' => Some(('\u{FBDE}', '\u{FBDF}', '\u{FBDE}', '\u{FBDF}')),
        '\u{06CC}' => Some(('\u{FBFC}', '\u{FBFD}', '\u{FBFE}', '\u{FBFF}')),
        '\u{06D0}' => Some(('\u{FBE4}', '\u{FBE5}', '\u{FBE6}', '\u{FBE7}')),
        '\u{06D2}' => Some(('\u{FBAE}', '\u{FBAF}', '\u{FBAE}', '\u{FBAF}')),
        '\u{06D3}' => Some(('\u{FBB0}', '\u{FBB1}', '\u{FBB0}', '\u{FBB1}')),
        _ => None,
    }
}

/// The letters that have presentation forms, in table order.
pub open spec fn shaped_letters() -> Seq<char> {
    seq![
        '\u{0621}', '\u{0622}', '\u{0623}', '\u{0624}', '\u{0625}', '\u{0626}', '\u{0627}',
        '\u{0628}', '\u{0629}', '\u{062A}', '\u{062B}', '\u{062C}', '\u{062D}', '\u{062E}',
        '\u{062F}', '\u{0630}', '\u{0631}', '\u{0632}', '\u{0633}', '\u{0634}', '\u{0635}',
        '\u{0636}', '\u{0637}', '\u{0638}', '\u{0639}', '\u{063A}', '\u{0641}', '\u{0642}',
        '\u{0643}', '\u{0644}', '\u{0645}', '\u{0646}', '\u{0647}', '\u{0648}', '\u{0649}',
        '\u{064A}', '\u{064B}', '\u{064C}', '\u{064D}', '\u{064E}', '\u{064F}', '\u{0650}',
        '\u{0651}', '\u{0652}', '\u{0671}', '\u{0679}', '\u{067A}', '\u{067B}', '\u{067E}',
        '\u{067F}', '\u{0680}', '\u{0683}', '\u{0684}', '\u{0686}', '\u{0687}', '\u{0688}',
        '\u{068C}', '\u{068D}', '\u{068E}', '\u{0691}', '\u{0698}', '\u{06A4}', '\u{06A6}',
        '\u{06A9}', '\u{06AD}', '\u{06AF}', '\u{06B1}', '\u{06B3}', '\u{06BA}', '\u{06BB}',
        '\u{06BE}', '\u{06C0}', '\u{06C1}', '\u{06C5}', '\u{06C6}', '\u{06C7}', '\u{06C8}',
        '\u{06C9}', '\u{06CB}', '\u{06CC}', '\u{06D0}', '\u{06D2}', '\u{06D3}'
    ]
}

/// The letters that have presentation forms, in table order.
pub fn shaped_letter_list() -> (v: Vec<char>)
    ensures
        v@ == shaped_letters(),
{
    let v = vec![
        '\u{0621}', '\u{0622}', '\u{0623}', '\u{0624}', '\u{0625}', '\u{0626}', '\u{0627}',
        '\u{0628}', '\u{0629}', '\u{062A}', '\u{062B}', '\u{062C}', '\u{062D}', '\u{062E}',
        '\u{062F}', '\u{0630}', '\u{0631}', '\u{0632}', '\u{0633}', '\u{0634}', '\u{0635}',
        '\u{0636}', '\u{0637}', '\u{0638}', '\u{0639}', '\u{063A}', '\u{0641}', '\u{0642}',
        '\u{0643}', '\u{0644}', '\u{0645}', '\u{0646}', '\u{0647}', '\u{0648}', '\u{0649}',
        '\u{064A}', '\u{064B}', '\u{064C}', '\u{064D}', '\u{064E}', '\u{064F}', '\u{0650}',
        '\u{0651}', '\u{0652}', '\u{0671}', '\u{0679}', '\u{067A}', '\u{067B}', '\u{067E}',
        '\u{067F}', '\u{0680}', '\u{0683}', '\u{0684}', '\u{0686}', '\u{0687}', '\u{0688}',
        '\u{068C}', '\u{068D}', '\u{068E}', '\u{0691}', '\u{0698}', '\u{06A4}', '\u{06A6}',
        '\u{06A9}', '\u{06AD}', '\u{06AF}', '\u{06B1}', '\u{06B3}', '\u{06BA}', '\u{06BB}',
        '\u{06BE}', '\u{06C0}', '\u{06C1}', '\u{06C5}', '\u{06C6}', '\u{06C7}', '\u{06C8}',
        '\u{06C9}', '\u{06CB}', '\u{06CC}', '\u{06D0}', '\u{06D2}', '\u{06D3}'
    ];
    assert(v@ =~= shaped_letters());
    v
}

/// The letter a presentation form belongs to.
pub open spec fn spec_letter_of_form(c: char) -> Option<char> {
    match c {
        '\u{FB50}' => Some('\u{0671}'),
        '\u{FB51}' => Some('\u{0671}'),
        '\u{FB52}' => Some('\u{067B}'),
        '\u{FB53}' => Some('\u{067B}'),
        '\u{FB54}' => Some('\u{067B}'),
        '\u{FB55}' => Some('\u{067B}'),
        '\u{FB56}' => Some('\u{067E}'),
        '\u{FB57}' => Some('\u{067E}'),
        '\u{FB58}' => Some('\u{067E}'),
        '\u{FB59}' => Some('\u{067E}'),
        '\u{FB5A}' => Some('\u{0680}'),
        '\u{FB5B}' => Some('\u{0680}'),
        '\u{FB5C}' => Some('\u{0680}'),
        '\u{FB5D}' => Some('\u{0680}'),
        '\u{FB5E}' => Some('\u{067A}'),
        '\u{FB5F}' => Some('\u{067A}'),
        '\u{FB60}' => Some('\u{067A}'),
        '\u{FB61}' => Some('\u{067A}'),
        '\u{FB62}' => Some('\u{067F}'),
        '\u{FB63}' => Some('\u{067F}'),
        '\u{FB64}' => Some('\u{067F}'),
        '\u{FB65}' => Some('\u{067F}'),
        '\u{FB66}' => Some('\u{0679}'),
        '\u{FB67}' => Some('\u{0679}'),
        '\u{FB68}' => Some('\u{0679}'),
        '\u{FB69}' => Some('\u{0679}'),
        '\u{FB6A}' => Some('\u{06A4}'),
        '\u{FB6B}' => Some('\u{06A4}'),
        '\u{FB6C}' => Some('\u{06A4}'),
        '\u{FB6D}' => Some('\u{06A4}'),
        '\u{FB6E}' => Some('\u{06A6}'),
        '\u{FB6F}' => Some('\u{06A6}'),
        '\u{FB70}' => Some('\u{06A6}'),
        '\u{FB71}' => Some('\u{06A6}'),
        '\u{FB72}' => Some('\u{0684}'),
        '\u{FB73}' => Some('\u{0684}'),
        '\u{FB74}' => Some('\u{0684}'),
        '\u{FB75}' => Some('\u{0684}'),
        '\u{FB76}' => Some('\u{0683}'),
        '\u{FB77}' => Some('\u{0683}'),
        '\u{FB78}' => Some('\u{0683}'),
        '\u{FB79}' => Some('\u{0683}'),
        '\u{FB7A}' => Some('\u{0686}'),
        '\u{FB7B}' => Some('\u{0686}'),
        '\u{FB7C}' => Some('\u{0686}'),
        '\u{FB7D}' => Some('\u{0686}'),
        '\u{FB7E}' => Some('\u{0687}'),
        '\u{FB7F}' => Some('\u{0687}'),
        '\u{FB80}' => Some('\u{0687}'),
        '\u{FB81}' => Some('\u{0687}'),
        '\u{FB82}' => Some('\u{068D}'),
        '\u{FB83}' => Some('\u{068D}'),
        '\u{FB84}' => Some('\u{068C}'),
        '\u{FB85}' => Some('\u{068C}'),
        '\u{FB86}' => Some('\u{068E}'),
        '\u{FB87}' => Some('\u{068E}'),
        '\u{FB88}' => Some('\u{0688}'),
        '\u{FB89}' => Some('\u{0688}'),
        '\u{FB8A}' => Some('\u{0698}'),
        '\u{FB8B}' => Some('\u{0698}'),
        '\u{FB8C}' => Some('\u{0691}'),
        '\u{FB8D}' => Some('\u{0691}'),
        '\u{FB8E}' => Some('\u{06A9}'),
        '\u{FB8F}' => Some('\u{06A9}'),
        '\u{FB90}' => Some('\u{06A9}'),
        '\u{FB91}' => Some('\u{06A9}'),
        '\u{FB92}' => Some('\u{06AF}'),
        '\u{FB93}' => Some('\u{06AF}'),
        '\u{FB94}' => Some('\u{06AF}'),
        '\u{FB95}' => Some('\u{06AF}'),
        '\u{FB96}' => Some('\u{06B3}'),
        '\u{FB97}' => Some('\u{06B3}'),
        '\u{FB98}' => Some('\u{06B3}'),
        '\u{FB99}' => Some('\u{06B3}'),
        '\u{FB9A}' => Some('\u{06B1}'),
        '\u{FB9B}' => Some('\u{06B1}'),
        '\u{FB9C}' => Some('\u{06B1}'),
        '\u{FB9D}' => Some('\u{06B1}'),
        '\u{FB9E}' => Some('\u{06BA}'),
        '\u{FB9F}' => Some('\u{06BA}'),
        '\u{FBA0}' => Some('\u{06BB}'),
        '\u{FBA1}' => Some('\u{06BB}'),
        '\u{FBA2}' => Some('\u{06BB}'),
        '\u{FBA3}' => Some('\u{06BB}'),
        '\u{FBA4}' => Some('\u{06C0}'),
        '\u{FBA5}' => Some('\u{06C0}'),
        '\u{FBA6}' => Some('\u{06C1}'),
        '\u{FBA7}' => Some('\u{06C1}'),
        '\u{FBA8}' => Some('\u{06C1}'),
        '\u{FBA9}' => Some('\u{06C1}'),
        '\u{FBAA}' => Some('\u{06BE}'),
        '\u{FBAB}' => Some('\u{06BE}'),
        '\u{FBAC}' => Some('\u{06BE}'),
        '\u{FBAD}' => Some('\u{06BE}'),
        '\u{FBAE}' => Some('\u{06D2}'),
        '\u{FBAF}' => Some('\u{06D2}'),
        '\u{FBB0}' => Some('\u{06D3}'),
        '\u{FBB1}' => Some('\u{06D3}'),
        '\u{FBD3}' => Some('\u{06AD}'),
        '\u{FBD4}' => Some('\u{06AD}'),
        '\u{FBD5}' => Some('\u{06AD}'),
        '\u{FBD6}' => Some('\u{06AD}'),
        '\u{FBD7}' => Some('\u{06C7}'),
        '\u{FBD8}' => Some('\u{06C7}'),
        '\u{FBD9}' => Some('\u{06C6}'),
        '\u{FBDA}' => Some('\u{06C6}'),
        '\u{FBDB}' => Some('\u{06C8}'),
        '\u{FBDC}' => Some('\u{06C8}'),
        '\u{FBDE}' => Some('\u{06CB}'),
        '\u{FBDF}' => Some('\u{06CB}'),
        '\u{FBE0}' => Some('\u{06C5}'),
        '\u{FBE1}' => Some('\u{06C5}'),
        '\u{FBE2}' => Some('\u{06C9}'),
        '\u{FBE3}' => Some('\u{06C9}'),
        '\u{FBE4}' => Some('\u{06D0}'),
        '\u{FBE5}' => Some('\u{06D0}'),
        '\u{FBE6}' => Some('\u{06D0}'),
        '\u{FBE7}' => Some('\u{06D0}'),
        '\u{FBE8}' => Some('\u{06BA}'),
        '\u{FBE9}' => Some('\u{06BA}'),
        '\u{FBFC}' => Some('\u{06CC}'),
        '\u{FBFD}' => Some('\u{06CC}'),
        '\u{FBFE}' => Some('\u{06CC}'),
        '\u{FBFF}' => Some('\u{06CC}'),
        '\u{FE70}' => Some('\u{064B}'),
        '\u{FE72}' => Some('\u{064C}'),
        '\u{FE74}' => Some('\u{064D}'),
        '\u{FE76}' => Some('\u{064E}'),
        '\u{FE78}' => Some('\u{064F}'),
        '\u{FE7A}' => Some('\u{0650}'),
        '\u{FE7C}' => Some('\u{0651}'),
        '\u{FE7E}' => Some('\u{0652}'),
        '\u{FE80}' => Some('\u{0621}'),
        '\u{FE81}' => Some('\u{0622}'),
        '\u{FE82}' => Some('\u{0622}'),
        '\u{FE83}' => Some('\u{0623}'),
        '\u{FE84}' => Some('\u{0623}'),
        '\u{FE85}' => Some('\u{0624}'),
        '\u{FE86}' => Some('\u{0624}'),
        '\u{FE87}' => Some('\u{0625}'),
        '\u{FE88}' => Some('\u{0625}'),
        '\u{FE89}' => Some('\u{0626}'),
        '\u{FE8A}' => Some('\u{0626}'),
        '\u{FE8B}' => Some('\u{0626}'),
        '\u{FE8C}' => Some('\u{0626}'),
        '\u{FE8D}' => Some('\u{0627}'),
        '\u{FE8E}' => Some('\u{0627}'),
        '\u{FE8F}' => Some('\u{0628}'),
        '\u{FE90}' => Some('\u{0628}'),
        '\u{FE91}' => Some('\u{0628}'),
        '\u{FE92}' => Some('\u{0628}'),
        '\u{FE93}' => Some('\u{0629}'),
        '\u{FE94}' => Some('\u{0629}'),
        '\u{FE95}' => Some('\u{062A}'),
        '\u{FE96}' => Some('\u{062A}'),
        '\u{FE97}' => Some('\u{062A}'),
        '\u{FE98}' => Some('\u{062A}'),
        '\u{FE99}' => Some('\u{062B}'),
        '\u{FE9A}' => Some('\u{062B}'),
        '\u{FE9B}' => Some('\u{062B}'),
        '\u{FE9C}' => Some('\u{062B}'),
        '\u{FE9D}' => Some('\u{062C}'),
        '\u{FE9E}' => Some('\u{062C}'),
        '\u{FE9F}' => Some('\u{062C}'),
        '\u{FEA0}' => Some('\u{062C}'),
        '\u{FEA1}' => Some('\u{062D}'),
        '\u{FEA2}' => Some('\u{062D}'),
        '\u{FEA3}' => Some('\u{062D}'),
        '\u{FEA4}' => Some('\u{062D}'),
        '\u{FEA5}' => Some('\u{062E}'),
        '\u{FEA6}' => Some('\u{062E}'),
        '\u{FEA7}' => Some('\u{062E}'),
        '\u{FEA8}' => Some('\u{062E}'),
        '\u{FEA9}' => Some('\u{062F}'),
        '\u{FEAA}' => Some('\u{062F}'),
        '\u{FEAB}' => Some('\u{0630}'),
        '\u{FEAC}' => Some('\u{0630}'),
        '\u{FEAD}' => Some('\u{0631}'),
        '\u{FEAE}' => Some('\u{0631}'),
        '\u{FEAF}' => Some('\u{0632}'),
        '\u{FEB0}' => Some('\u{0632}'),
        '\u{FEB1}' => Some('\u{0633}'),
        '\u{FEB2}' => Some('\u{0633}'),
        '\u{FEB3}' => Some('\u{0633}'),
        '\u{FEB4}' => Some('\u{0633}'),
        '\u{FEB5}' => Some('\u{0634}'),
        '\u{FEB6}' => Some('\u{0634}'),
        '\u{FEB7}' => Some('\u{0634}'),
        '\u{FEB8}' => Some('\u{0634}'),
        '\u{FEB9}' => Some('\u{0635}'),
        '\u{FEBA}' => Some('\u{0635}'),
        '\u{FEBB}' => Some('\u{0635}'),
        '\u{FEBC}' => Some('\u{0635}'),
        '\u{FEBD}' => Some('\u{0636}'),
        '\u{FEBE}' => Some('\u{0636}'),
        '\u{FEBF}' => Some('\u{0636}'),
        '\u{FEC0}' => Some('\u{0636}'),
        '\u{FEC1}' => Some('\u{0637}'),
        '\u{FEC2}' => Some('\u{0637}'),
        '\u{FEC3}' => Some('\u{0637}'),
        '\u{FEC4}' => Some('\u{0637}'),
        '\u{FEC5}' => Some('\u{0638}'),
        '\u{FEC6}' => Some('\u{0638}'),
        '\u{FEC7}' => Some('\u{0638}'),
        '\u{FEC8}' => Some('\u{0638}'),
        '\u{FEC9}' => Some('\u{0639}'),
        '\u{FECA}' => Some('\u{0639}'),
        '\u{FECB}' => Some('\u{0639}'),
        '\u{FECC}' => Some('\u{0639}'),
        '\u{FECD}' => Some('\u{063A}'),
        '\u{FECE}' => Some('\u{063A}'),
        '\u{FECF}' => Some('\u{063A}'),
        '\u{FED0}' => Some('\u{063A}'),
        '\u{FED1}' => Some('\u{0641}'),
        '\u{FED2}' => Some('\u{0641}'),
        '\u{FED3}' => Some('\u{0641}'),
        '\u{FED4}' => Some('\u{0641}'),
        '\u{FED5}' => Some('\u{0642}'),
        '\u{FED6}' => Some('\u{0642}'),
        '\u{FED7}' => Some('\u{0642}'),
        '\u{FED8}' => Some('\u{0642}'),
        '\u{FED9}' => Some('\u{0643}'),
        '\u{FEDA}' => Some('\u{0643}'),
        '\u{FEDB}' => Some('\u{0643}'),
        '\u{FEDC}' => Some('\u{0643}'),
        '\u{FEDD}' => Some('\u{0644}'),
        '\u{FEDE}' => Some('\u{0644}'),
        '\u{FEDF}' => Some('\u{0644}'),
        '\u{FEE0}' => Some('\u{0644}'),
        '\u{FEE1}' => Some('\u{0645}'),
        '\u{FEE2}' => Some('\u{0645}'),
        '\u{FEE3}' => Some('\u{0645}'),
        '\u{FEE4}' => Some('\u{0645}'),
        '\u{FEE5}' => Some('\u{0646}'),
        '\u{FEE6}' => Some('\u{0646}'),
        '\u{FEE7}' => Some('\u{0646}'),
        '\u{FEE8}' => Some('\u{0646}'),
        '\u{FEE9}' => Some('\u{0647}'),
        '\u{FEEA}' => Some('\u{0647}'),
        '\u{FEEB}' => Some('\u{0647}'),
        '\u{FEEC}' => Some('\u{0647}'),
        '\u{FEED}' => Some('\u{0648}'),
        '\u{FEEE}' => Some('\u{0648}'),
        '\u{FEEF}' => Some('\u{0649}'),
        '\u{FEF0}' => Some('\u{0649}'),
        '\u{FEF1}' => Some('\u{064A}'),
        '\u{FEF2}' => Some('\u{064A}'),
        '\u{FEF3}' => Some('\u{064A}'),
        '\u{FEF4}' => Some('\u{064A}'),
        _ => None,
    }
}

/// The letter a presentation form belongs to.
#[verifier::when_used_as_spec(spec_letter_of_form)]
pub fn letter_of_form(c: char) -> (r: Option<char>)
    ensures
        r == spec_letter_of_form(c),
{
    match c {
        '\u{FB50}' => Some('\u{0671}'),
        '\u{FB51}' => Some('\u{0671}'),
        '\u{FB52}' => Some('\u{067B}'),
        '\u{FB53}' => Some('\u{067B}'),
        '\u{FB54}' => Some('\u{067B}'),
        '\u{FB55}' => Some('\u{067B}'),
        '\u{FB56}' => Some('\u{067E}'),
        '\u{FB57}' => Some('\u{067E}'),
        '\u{FB58}' => Some('\u{067E}'),
        '\u{FB59}' => Some('\u{067E}'),
        '\u{FB5A}' => Some('\u{0680}'),
        '\u{FB5B}' => Some('\u{0680}'),
        '\u{FB5C}' => Some('\u{0680}'),
        '\u{FB5D}' => Some('\u{0680}'),
        '\u{FB5E}' => Some('\u{067A}'),
        '\u{FB5F}' => Some('\u{067A}'),
        '\u{FB60}' => Some('\u{067A}'),
        '\u{FB61}' => Some('\u{067A}'),
        '\u{FB62}' => Some('\u{067F}'),
        '\u{FB63}' => Some('\u{067F}'),
        '\u{FB64}' => Some('\u{067F}'),
        '\u{FB65}' => Some('\u{067F}'),
        '\u{FB66}' => Some('\u{0679}'),
        '\u{FB67}' => Some('\u{0679}'),
        '\u{FB68}' => Some('\u{0679}'),
        '\u{FB69}' => Some('\u{0679}'),
        '\u{FB6A}' => Some('\u{06A4}'),
        '\u{FB6B}' => Some('\u{06A4}'),
        '\u{FB6C}' => Some('\u{06A4}'),
        '\u{FB6D}' => Some('\u{06A4}'),
        '\u{FB6E}' => Some('\u{06A6}'),
        '\u{FB6F}' => Some('\u{06A6}'),
        '\u{FB70}' => Some('\u{06A6}'),
        '\u{FB71}' => Some('\u{06A6}'),
        '\u{FB72}' => Some('\u{0684}'),
        '\u{FB73}' => Some('\u{0684}'),
        '\u{FB74}' => Some('\u{0684}'),
        '\u{FB75}' => Some('\u{0684}'),
        '\u{FB76}' => Some('\u{0683}'),
        '\u{FB77}' => Some('\u{0683}'),
        '\u{FB78}' => Some('\u{0683}'),
        '\u{FB79}' => Some('\u{0683}'),
        '\u{FB7A}' => Some('\u{0686}'),
        '\u{FB7B}' => Some('\u{0686}'),
        '\u{FB7C}' => Some('\u{0686}'),
        '\u{FB7D}' => Some('\u{0686}'),
        '\u{FB7E}' => Some('\u{0687}'),
        '\u{FB7F}' => Some('\u{0687}'),
        '\u{FB80}' => Some('\u{0687}'),
        '\u{FB81}' => Some('\u{0687}'),
        '\u{FB82}' => Some('\u{068D}'),
        '\u{FB83}' => Some('\u{068D}'),
        '\u{FB84}' => Some('\u{068C}'),
        '\u{FB85}' => Some('\u{068C}'),
        '\u{FB86}' => Some('\u{068E}'),
        '\u{FB87}' => Some('\u{068E}'),
        '\u{FB88}' => Some('\u{0688}'),
        '\u{FB89}' => Some('\u{0688}'),
        '\u{FB8A}' => Some('\u{0698}'),
        '\u{FB8B}' => Some('\u{0698}'),
        '\u{FB8C}' => Some('\u{0691}'),
        '\u{FB8D}' => Some('\u{0691}'),
        '\u{FB8E}' => Some('\u{06A9}'),
        '\u{FB8F}' => Some('\u{06A9}'),
        '\u{FB90}' => Some('\u{06A9}'),
        '\u{FB91}' => Some('\u{06A9}'),
        '\u{FB92}' => Some('\u{06AF}'),
        '\u{FB93}' => Some('\u{06AF}'),
        '\u{FB94}' => Some('\u{06AF}'),
        '\u{FB95}' => Some('\u{06AF}'),
        '\u{FB96}' => Some('\u{06B3}'),
        '\u{FB97}' => Some('\u{06B3}'),
        '\u{FB98}' => Some('\u{06B3}'),
        '\u{FB99}' => Some('\u{06B3}'),
        '\u{FB9A}' => Some('\u{06B1}'),
        '\u{FB9B}' => Some('\u{06B1}'),
        '\u{FB9C}' => Some('\u{06B1}'),
        '\u{FB9D}' => Some('\u{06B1}'),
        '\u{FB9E}' => Some('\u{06BA}'),
        '\u{FB9F}' => Some('\u{06BA}'),
        '\u{FBA0}' => Some('\u{06BB}'),
        '\u{FBA1}' => Some('\u{06BB}'),
        '\u{FBA2}' => Some('\u{06BB}'),
        '\u{FBA3}' => Some('\u{06BB}'),
        '\u{FBA4}' => Some('\u{06C0}'),
        '\u{FBA5}' => Some('\u{06C0}'),
        '\u{FBA6}' => Some('\u{06C1}'),
        '\u{FBA7}' => Some('\u{06C1}'),
        '\u{FBA8}' => Some('\u{06C1}'),
        '\u{FBA9}' => Some('\u{06C1}'),
        '\u{FBAA}' => Some('\u{06BE}'),
        '\u{FBAB}' => Some('\u{06BE}'),
        '\u{FBAC}' => Some('\u{06BE}'),
        '\u{FBAD}' => Some('\u{06BE}'),
        '\u{FBAE}' => Some('\u{06D2}'),
        '\u{FBAF}' => Some('\u{06D2}'),
        '\u{FBB0}' => Some('\u{06D3}'),
        '\u{FBB1}' => Some('\u{06D3}'),
        '\u{FBD3}' => Some('\u{06AD}'),
        '\u{FBD4}' => Some('\u{06AD}'),
        '\u{FBD5}' => Some('\u{06AD}'),
        '\u{FBD6}' => Some('\u{06AD}'),
        '\u{FBD7}' => Some('\u{06C7}'),
        '\u{FBD8}' => Some('\u{06C7}'),
        '\u{FBD9}' => Some('\u{06C6}'),
        '\u{FBDA}' => Some('\u{06C6}'),
        '\u{FBDB}' => Some('\u{06C8}'),
        '\u{FBDC}' => Some('\u{06C8}'),
        '\u{FBDE}' => Some('\u{06CB}'),
        '\u{FBDF}' => Some('\u{06CB}'),
        '\u{FBE0}' => Some('\u{06C5}'),
        '\u{FBE1}' => Some('\u{06C5}'),
        '\u{FBE2}' => Some('\u{06C9}'),
        '\u{FBE3}' => Some('\u{06C9}'),
        '\u{FBE4}' => Some('\u{06D0}'),
        '\u{FBE5}' => Some('\u{06D0}'),
        '\u{FBE6}' => Some('\u{06D0}'),
        '\u{FBE7}' => Some('\u{06D0}'),
        '\u{FBE8}' => Some('\u{06BA}'),
        '\u{FBE9}' => Some('\u{06BA}'),
        '\u{FBFC}' => Some('\u{06CC}'),
        '\u{FBFD}' => Some('\u{06CC}'),
        '\u{FBFE}' => Some('\u{06CC}'),
        '\u{FBFF}' => Some('\u{06CC}'),
        '\u{FE70}' => Some('\u{064B}'),
        '\u{FE72}' => Some('\u{064C}'),
        '\u{FE74}' => Some('\u{064D}'),
        '\u{FE76}' => Some('\u{064E}'),
        '\u{FE78}' => Some('\u{064F}'),
        '\u{FE7A}' => Some('\u{0650}'),
        '\u{FE7C}' => Some('\u{0651}'),
        '\u{FE7E}' => Some('\u{0652}'),
        '\u{FE80}' => Some('\u{0621}'),
        '\u{FE81}' => Some('\u{0622}'),
        '\u{FE82}' => Some('\u{0622}'),
        '\u{FE83}' => Some('\u{0623}'),
        '\u{FE84}' => Some('\u{0623}'),
        '\u{FE85}' => Some('\u{0624}'),
        '\u{FE86}' => Some('\u{0624}'),
        '\u{FE87}' => Some('\u{0625}'),
        '\u{FE88}' => Some('\u{0625}'),
        '\u{FE89}' => Some('\u{0626}'),
        '\u{FE8A}' => Some('\u{0626}'),
        '\u{FE8B}' => Some('\u{0626}'),
        '\u{FE8C}' => Some('\u{0626}'),
        '\u{FE8D}' => Some('\u{0627}'),
        '\u{FE8E}' => Some('\u{0627}'),
        '\u{FE8F}' => Some('\u{0628}'),
        '\u{FE90}' => Some('\u{0628}'),
        '\u{FE91}' => Some('\u{0628}'),
        '\u{FE92}' => Some('\u{0628}'),
        '\u{FE93}' => Some('\u{0629}'),
        '\u{FE94}' => Some('\u{0629}'),
        '\u{FE95}' => Some('\u{062A}'),
        '\u{FE96}' => Some('\u{062A}'),
        '\u{FE97}' => Some('\u{062A}'),
        '\u{FE98}' => Some('\u{062A}'),
        '\u{FE99}' => Some('\u{062B}'),
        '\u{FE9A}' => Some('\u{062B}'),
        '\u{FE9B}' => Some('\u{062B}'),
        '\u{FE9C}' => Some('\u{062B}'),
        '\u{FE9D}' => Some('\u{062C}'),
        '\u{FE9E}' => Some('\u{062C}'),
        '\u{FE9F}' => Some('\u{062C}'),
        '\u{FEA0}' => Some('\u{062C}'),
        '\u{FEA1}' => Some('\u{062D}'),
        '\u{FEA2}' => Some('\u{062D}'),
        '\u{FEA3}' => Some('\u{062D}'),
        '\u{FEA4}' => Some('\u{062D}'),
        '\u{FEA5}' => Some('\u{062E}'),
        '\u{FEA6}' => Some('\u{062E}'),
        '\u{FEA7}' => Some('\u{062E}'),
        '\u{FEA8}' => Some('\u{062E}'),
        '\u{FEA9}' => Some('\u{062F}'),
        '\u{FEAA}' => Some('\u{062F}'),
        '\u{FEAB}' => Some('\u{0630}'),
        '\u{FEAC}' => Some('\u{0630}'),
        '\u{FEAD}' => Some('\u{0631}'),
        '\u{FEAE}' => Some('\u{0631}'),
        '\u{FEAF}' => Some('\u{0632}'),
        '\u{FEB0}' => Some('\u{0632}'),
        '\u{FEB1}' => Some('\u{0633}'),
        '\u{FEB2}' => Some('\u{0633}'),
        '\u{FEB3}' => Some('\u{0633}'),
        '\u{FEB4}' => Some('\u{0633}'),
        '\u{FEB5}' => Some('\u{0634}'),
        '\u{FEB6}' => Some('\u{0634}'),
        '\u{FEB7}' => Some('\u{0634}'),
        '\u{FEB8}' => Some('\u{0634}'),
        '\u{FEB9}' => Some('\u{0635}'),
        '\u{FEBA}' => Some('\u{0635}'),
        '\u{FEBB}' => Some('\u{0635}'),
        '\u{FEBC}' => Some('\u{0635}'),
        '\u{FEBD}' => Some('\u{0636}'),
        '\u{FEBE}' => Some('\u{0636}'),
        '\u{FEBF}' => Some('\u{0636}'),
        '\u{FEC0}' => Some('\u{0636}'),
        '\u{FEC1}' => Some('\u{0637}'),
        '\u{FEC2}' => Some('\u{0637}'),
        '\u{FEC3}' => Some('\u{0637}'),
        '\u{FEC4}' => Some('\u{0637}'),
        '\u{FEC5}' => Some('\u{0638}'),
        '\u{FEC6}' => Some('\u{0638}'),
        '\u{FEC7}' => Some('\u{0638}'),
        '\u{FEC8}' => Some('\u{0638}'),
        '\u{FEC9}' => Some('\u{0639}'),
        '\u{FECA}' => Some('\u{0639}'),
        '\u{FECB}' => Some('\u{0639}'),
        '\u{FECC}' => Some('\u{0639}'),
        '\u{FECD}' => Some('\u{063A}'),
        '\u{FECE}' => Some('\u{063A}'),
        '\u{FECF}' => Some('\u{063A}'),
        '\u{FED0}' => Some('\u{063A}'),
        '\u{FED1}' => Some('\u{0641}'),
        '\u{FED2}' => Some('\u{0641}'),
        '\u{FED3}' => Some('\u{0641}'),
        '\u{FED4}' => Some('\u{0641}'),
        '\u{FED5}' => Some('\u{0642}'),
        '\u{FED6}' => Some('\u{0642}'),
        '\u{FED7}' => Some('\u{0642}'),
        '\u{FED8}' => Some('\u{0642}'),
        '\u{FED9}' => Some('\u{0643}'),
        '\u{FEDA}' => Some('\u{0643}'),
        '\u{FEDB}' => Some('\u{0643}'),
        '\u{FEDC}' => Some('\u{0643}'),
        '\u{FEDD}' => Some('\u{0644}'),
        '\u{FEDE}' => Some('\u{0644}'),
        '\u{FEDF}' => Some('\u{0644}'),
        '\u{FEE0}' => Some('\u{0644}'),
        '\u{FEE1}' => Some('\u{0645}'),
        '\u{FEE2}' => Some('\u{0645}'),
        '\u{FEE3}' => Some('\u{0645}'),
        '\u{FEE4}' => Some('\u{0645}'),
        '\u{FEE5}' => Some('\u{0646}'),
        '\u{FEE6}' => Some('\u{0646}'),
        '\u{FEE7}' => Some('\u{0646}'),
        '\u{FEE8}' => Some('\u{0646}'),
        '\u{FEE9}' => Some('\u{0647}'),
        '\u{FEEA}' => Some('\u{0647}'),
        '\u{FEEB}' => Some('\u{0647}'),
        '\u{FEEC}' => Some('\u{0647}'),
        '\u{FEED}' => Some('\u{0648}'),
        '\u{FEEE}' => Some('\u{0648}'),
        '\u{FEEF}' => Some('\u{0649}'),
        '\u{FEF0}' => Some('\u{0649}'),
        '\u{FEF1}' => Some('\u{064A}'),
        '\u{FEF2}' => Some('\u{064A}'),
        '\u{FEF3}' => Some('\u{064A}'),
        '\u{FEF4}' => Some('\u{064A}'),
        _ => None,
    }
}

/// The letters a ligature stands for.
pub open spec fn spec_ligature_letters(c: char) -> Option<Seq<char>> {
    match c {
        '\u{FEF5}' => Some(seq!['\u{FEDF}', '\u{FE82}']),
        '\u{FEF6}' => Some(seq!['\u{FEE0}', '\u{FE82}']),
        '\u{FEF7}' => Some(seq!['\u{FEDF}', '\u{FE84}']),
        '\u{FEF8}' => Some(seq!['\u{FEE0}', '\u{FE84}']),
        '\u{FEF9}' => Some(seq!['\u{FEDF}', '\u{FE88}']),
        '\u{FEFA}' => Some(seq!['\u{FEE0}', '\u{FE88}']),
        '\u{FEFB}' => Some(seq!['\u{FEDF}', '\u{FE8E}']),
        '\u{FEFC}' => Some(seq!['\u{FEE0}', '\u{FE8E}']),
        '\u{FBEA}' => Some(seq!['\u{FE8B}', '\u{FE8E}']),
        '\u{FBEB}' => Some(seq!['\u{FE8C}', '\u{FE8E}']),
        '\u{FBEC}' => Some(seq!['\u{FE8B}', '\u{FEEA}']),
        '\u{FBED}' => Some(seq!['\u{FE8C}', '\u{FEEA}']),
        '\u{FBEE}' => Some(seq!['\u{FE8B}', '\u{FEEE}']),
        '\u{FBEF}' => Some(seq!['\u{FE8C}', '\u{FEEE}']),
        '\u{FC04}' => Some(seq!['\u{FE8B}', '\u{FEF2}']),
        '\u{FC69}' => Some(seq!['\u{FE8C}', '\u{FEF2}']),
        '\u{FBF8}' => Some(seq!['\u{FE8B}', '\u{FEF4}']),
        '\u{FC03}' => Some(seq!['\u{FE8B}', '\u{FEF0}']),
        '\u{FC68}' => Some(seq!['\u{FE8C}', '\u{FEF0}']),
        '\u{FC00}' => Some(seq!['\u{FE8B}', '\u{FE9E}']),
        '\u{FC01}' => Some(seq!['\u{FE8B}', '\u{FEA2}']),
        '\u{FC02}' => Some(seq!['\u{FE8B}', '\u{FEE2}']),
        '\u{FC05}' => Some(seq!['\u{FE91}', '\u{FE9E}']),
        '\u{FC06}' => Some(seq!['\u{FE91}', '\u{FEA2}']),
        '\u{FC07}' => Some(seq!['\u{FE91}', '\u{FEA6}']),
        '\u{FC08}' => Some(seq!['\u{FE91}', '\u{FEE2}']),
        '\u{FC09}' => Some(seq!['\u{FE91}', '\u{FEF0}']),
        '\u{FC0A}' => Some(seq!['\u{FE91}', '\u{FEF2}']),
        '\u{FC0B}' => Some(seq!['\u{FE97}', '\u{FE9E}']),
        '\u{FC0C}' => Some(seq!['\u{FE97}', '\u{FEA2}']),
        '\u{FC0D}' => Some(seq!['\u{FE97}', '\u{FEA6}']),
        '\u{FC0E}' => Some(seq!['\u{FE97}', '\u{FEE2}']),
        '\u{FC0F}' => Some(seq!['\u{FE97}', '\u{FEF0}']),
        '\u{FC10}' => Some(seq!['\u{FE97}', '\u{FEF2}']),
        '\u{FC11}' => Some(seq!['\u{FE9B}', '\u{FE9E}']),
        '\u{FC12}' => Some(seq!['\u{FE9B}', '\u{FEE2}']),
        '\u{FC13}' => Some(seq!['\u{FE9B}', '\u{FEF0}']),
        '\u{FC14}' => Some(seq!['\u{FE9B}', '\u{FEF2}']),
        '\u{FC15}' => Some(seq!['\u{FE9F}', '\u{FEA2}']),
        '\u{FC16}' => Some(seq!['\u{FE9F}', '\u{FEE2}']),
        '\u{FC17}' => Some(seq!['\u{FEA3}', '\u{FE9E}']),
        '\u{FC18}' => Some(seq!['\u{FEA3}', '\u{FEE2}']),
        '\u{FC19}' => Some(seq!['\u{FEA7}', '\u{FE9E}']),
        '\u{FC1A}' => Some(seq!['\u{FEA7}', '\u{FEA2}']),
        '\u{FC1B}' => Some(seq!['\u{FEA7}', '\u{FEE2}']),
        '\u{FC1C}' => Some(seq!['\u{FEB3}', '\u{FE9E}']),
        '\u{FC1D}' => Some(seq!['\u{FEB3}', '\u{FEA2}']),
        '\u{FC1E}' => Some(seq!['\u{FEB3}', '\u{FEA6}']),
        '\u{FC1F}' => Some(seq!['\u{FEB3}', '\u{FEE2}']),
        '\u{FC20}' => Some(seq!['\u{FEBB}', '\u{FEA2}']),
        '\u{FC21}' => Some(seq!['\u{FEBB}', '\u{FEE2}']),
        '\u{FC22}' => Some(seq!['\u{FEBF}', '\u{FE9E}']),
        '\u{FC23}' => Some(seq!['\u{FEBF}', '\u{FEA2}']),
        '\u{FC24}' => Some(seq!['\u{FEBF}', '\u{FEA6}']),
        '\u{FC25}' => Some(seq!['\u{FEBF}', '\u{FEE2}']),
        '\u{FC26}' => Some(seq!['\u{FEC3}', '\u{FEA2}']),
        '\u{FC27}' => Some(seq!['\u{FEC3}', '\u{FEE2}']),
        '\u{FC28}' => Some(seq!['\u{FEC7}', '\u{FEE2}']),
        '\u{FC29}' => Some(seq!['\u{FECB}', '\u{FE9E}']),
        '\u{FC2A}' => Some(seq!['\u{FECB}', '\u{FEE2}']),
        '\u{FC2B}' => Some(seq!['\u{FECF}', '\u{FE9E}']),
        '\u{FC2C}' => Some(seq!['\u{FECF}', '\u{FEE2}']),
        '\u{FC2D}' => Some(seq!['\u{FED3}', '\u{FE9E}']),
        '\u{FC2E}' => Some(seq!['\u{FED3}', '\u{FEA2}']),
        '\u{FC2F}' => Some(seq!['\u{FED3}', '\u{FEA6}']),
        '\u{FC30}' => Some(seq!['\u{FED3}', '\u{FEE2}']),
        '\u{FC31}' => Some(seq!['\u{FED3}', '\u{FEF0}']),
        '\u{FC32}' => Some(seq!['\u{FED3}', '\u{FEF2}']),
        '\u{FC33}' => Some(seq!['\u{FED7}', '\u{FEA2}']),
        '\u{FC34}' => Some(seq!['\u{FED7}', '\u{FEE2}']),
        '\u{FC35}' => Some(seq!['\u{FED7}', '\u{FEF0}']),
        '\u{FC36}' => Some(seq!['\u{FED7}', '\u{FEF2}']),
        '\u{FC37}' => Some(seq!['\u{FEDB}', '\u{FE8E}']),
        '\u{FC38}' => Some(seq!['\u{FEDB}', '\u{FE9E}']),
        '\u{FC39}' => Some(seq!['\u{FEDB}', '\u{FEA2}']),
        '\u{FC3A}' => Some(seq!['\u{FEDB}', '\u{FEA6}']),
        '\u{FC3B}' => Some(seq!['\u{FEDB}', '\u{FEDE}']),
        '\u{FC3C}' => Some(seq!['\u{FEDB}', '\u{FEE2}']),
        '\u{FC3D}' => Some(seq!['\u{FEDB}', '\u{FEF0}']),
        '\u{FC3E}' => Some(seq!['\u{FEDB}', '\u{FEF2}']),
        '\u{FC3F}' => Some(seq!['\u{FEDF}', '\u{FE9E}']),
        '\u{FC40}' => Some(seq!['\u{FEDF}', '\u{FEA2}']),
        '\u{FC41}' => Some(seq!['\u{FEDF}', '\u{FEA6}']),
        '\u{FC42}' => Some(seq!['\u{FEDF}', '\u{FEE2}']),
        '\u{FC43}' => Some(seq!['\u{FEDF}', '\u{FEF0}']),
        '\u{FC44}' => Some(seq!['\u{FEDF}', '\u{FEF2}']),
        '\u{FC45}' => Some(seq!['\u{FEE3}', '\u{FE9E}']),
        '\u{FC46}' => Some(seq!['\u{FEE3}', '\u{FEA2}']),
        '\u{FC47}' => Some(seq!['\u{FEE3}', '\u{FEA6}']),
        '\u{FC48}' => Some(seq!['\u{FEE3}', '\u{FEE2}']),
        '\u{FC49}' => Some(seq!['\u{FEE3}', '\u{FEF0}']),
        '\u{FC4A}' => Some(seq!['\u{FEE3}', '\u{FEF2}']),
        '\u{FC4B}' => Some(seq!['\u{FEE7}', '\u{FE9E}']),
        '\u{FC4C}' => Some(seq!['\u{FEE7}', '\u{FEA2}']),
        '\u{FC4D}' => Some(seq!['\u{FEE7}', '\u{FEA6}']),
        '\u{FC4E}' => Some(seq!['\u{FEE7}', '\u{FEE2}']),
        '\u{FC4F}' => Some(seq!['\u{FEE7}', '\u{FEF0}']),
        '\u{FC50}' => Some(seq!['\u{FEE7}', '\u{FEF2}']),
        '\u{FC51}' => Some(seq!['\u{FEEB}', '\u{FE9E}']),
        '\u{FC52}' => Some(seq!['\u{FEEB}', '\u{FEE2}']),
        '\u{FC53}' => Some(seq!['\u{FEEB}', '\u{FEF0}']),
        '\u{FC54}' => Some(seq!['\u{FEEB}', '\u{FEF2}']),
        '\u{FC55}' => Some(seq!['\u{FEF3}', '\u{FE9E}']),
        '\u{FC56}' => Some(seq!['\u{FEF3}', '\u{FEA2}']),
        '\u{FC57}' => Some(seq!['\u{FEF3}', '\u{FEA6}']),
        '\u{FC58}' => Some(seq!['\u{FEF3}', '\u{FEE2}']),
        '\u{FC59}' => Some(seq!['\u{FEF3}', '\u{FEF0}']),
        '\u{FC5A}' => Some(seq!['\u{FEF3}', '\u{FEF2}']),
        '\u{FC5E}' => Some(seq!['\u{FE7C}', '\u{FE72}']),
        '\u{FC5F}' => Some(seq!['\u{FE7C}', '\u{FE74}']),
        '\u{FC60}' => Some(seq!['\u{FE7C}', '\u{FE76}']),
        '\u{FC61}' => Some(seq!['\u{FE7C}', '\u{FE78}']),
        '\u{FC62}' => Some(seq!['\u{FE7C}', '\u{FE7A}']),
        '\u{FC64}' => Some(seq!['\u{FE8C}', '\u{FEAE}']),
        '\u{FC65}' => Some(seq!['\u{FE8C}', '\u{FEB0}']),
        '\u{FC66}' => Some(seq!['\u{FE8C}', '\u{FEE2}']),
        '\u{FC67}' => Some(seq!['\u{FE8C}', '\u{FEE6}']),
        '\u{FC6A}' => Some(seq!['\u{FE92}', '\u{FEAE}']),
        '\u{FC6B}' => Some(seq!['\u{FE92}', '\u{FEB0}']),
        '\u{FC6C}' => Some(seq!['\u{FE92}', '\u{FEE2}']),
        '\u{FC6D}' => Some(seq!['\u{FE92}', '\u{FEE6}']),
        '\u{FC6E}' => Some(seq!['\u{FE92}', '\u{FEF0}']),
        '\u{FC6F}' => Some(seq!['\u{FE92}', '\u{FEF2}']),
        '\u{FC70}' => Some(seq!['\u{FE98}', '\u{FEAE}']),
        '\u{FC71}' => Some(seq!['\u{FE98}', '\u{FEB0}']),
        '\u{FC72}' => Some(seq!['\u{FE98}', '\u{FEE2}']),
        '\u{FC73}' => Some(seq!['\u{FE98}', '\u{FEE6}']),
        '\u{FC74}' => Some(seq!['\u{FE98}', '\u{FEF0}']),
        '\u{FC75}' => Some(seq!['\u{FE98}', '\u{FEF2}']),
        '\u{FC76}' => Some(seq!['\u{FE9C}', '\u{FEAE}']),
        '\u{FC77}' => Some(seq!['\u{FE9C}', '\u{FEB0}']),
        '\u{FC78}' => Some(seq!['\u{FE9C}', '\u{FEE2}']),
        '\u{FC79}' => Some(seq!['\u{FE9C}', '\u{FEE6}']),
        '\u{FC7A}' => Some(seq!['\u{FE9C}', '\u{FEF0}']),
        '\u{FC7B}' => Some(seq!['\u{FE9C}', '\u{FEF2}']),
        '\u{FC7C}' => Some(seq!['\u{FED4}', '\u{FEF0}']),
        '\u{FC7D}' => Some(seq!['\u{FED4}', '\u{FEF2}']),
        '\u{FC7E}' => Some(seq!['\u{FED8}', '\u{FEF0}']),
        '\u{FC7F}' => Some(seq!['\u{FED8}', '\u{FEF2}']),
        '\u{FC80}' => Some(seq!['\u{FEDC}', '\u{FE8E}']),
        '\u{FC81}' => Some(seq!['\u{FEDC}', '\u{FEDE}']),
        '\u{FC82}' => Some(seq!['\u{FEDC}', '\u{FEE2}']),
        '\u{FC83}' => Some(seq!['\u{FEDC}', '\u{FEF0}']),
        '\u{FC84}' => Some(seq!['\u{FEDC}', '\u{FEF2}']),
        '\u{FC85}' => Some(seq!['\u{FEE0}', '\u{FEE2}']),
        '\u{FC86}' => Some(seq!['\u{FEE0}', '\u{FEF0}']),
        '\u{FC87}' => Some(seq!['\u{FEE0}', '\u{FEF2}']),
        '\u{FC88}' => Some(seq!['\u{FEE4}', '\u{FE8E}']),
        '\u{FC89}' => Some(seq!['\u{FEE4}', '\u{FEE2}']),
        '\u{FC8A}' => Some(seq!['\u{FEE8}', '\u{FEAE}']),
        '\u{FC8B}' => Some(seq!['\u{FEE8}', '\u{FEB0}']),
        '\u{FC8C}' => Some(seq!['\u{FEE8}', '\u{FEE2}']),
        '\u{FC8D}' => Some(seq!['\u{FEE8}', '\u{FEE6}']),
        '\u{FC8E}' => Some(seq!['\u{FEE8}', '\u{FEF0}']),
        '\u{FC8F}' => Some(seq!['\u{FEE8}', '\u{FEF2}']),
        '\u{FC91}' => Some(seq!['\u{FEF4}', '\u{FEAE}']),
        '\u{FC92}' => Some(seq!['\u{FEF4}', '\u{FEB0}']),
        '\u{FC93}' => Some(seq!['\u{FEF4}', '\u{FEE2}']),
        '\u{FC94}' => Some(seq!['\u{FEF4}', '\u{FEE6}']),
        '\u{FC95}' => Some(seq!['\u{FEF4}', '\u{FEF0}']),
        '\u{FC96}' => Some(seq!['\u{FEF4}', '\u{FEF2}']),
        '\u{FC97}' => Some(seq!['\u{FE8B}', '\u{FEA0}']),
        '\u{FC98}' => Some(seq!['\u{FE8B}', '\u{FEA4}']),
        '\u{FC99}' => Some(seq!['\u{FE8B}', '\u{FEA8}']),
        '\u{FC9A}' => Some(seq!['\u{FE8B}', '\u{FEE4}']),
        '\u{FC9B}' => Some(seq!['\u{FE8B}', '\u{FEEC}']),
        '\u{FC9C}' => Some(seq!['\u{FE91}', '\u{FEA0}']),
        '\u{FC9D}' => Some(seq!['\u{FE91}', '\u{FEA4}']),
        '\u{FC9E}' => Some(seq!['\u{FE91}', '\u{FEA8}']),
        '\u{FC9F}' => Some(seq!['\u{FE91}', '\u{FEE4}']),
        '\u{FCA0}' => Some(seq!['\u{FE91}', '\u{FEEC}']),
        '\u{FCA1}' => Some(seq!['\u{FE97}', '\u{FEA0}']),
        '\u{FCA2}' => Some(seq!['\u{FE97}', '\u{FEA4}']),
        '\u{FCA3}' => Some(seq!['\u{FE97}', '\u{FEA8}']),
        '\u{FCA4}' => Some(seq!['\u{FE97}', '\u{FEE4}']),
        '\u{FCA5}' => Some(seq!['\u{FE97}', '\u{FEEC}']),
        '\u{FCE5}' => Some(seq!['\u{FE9C}', '\u{FEE4}']),
        '\u{FCA7}' => Some(seq!['\u{FE9F}', '\u{FEA4}']),
        '\u{FCA8}' => Some(seq!['\u{FE9F}', '\u{FEE4}']),
        '\u{FCA9}' => Some(seq!['\u{FEA3}', '\u{FEA0}']),
        '\u{FCAA}' => Some(seq!['\u{FEA3}', '\u{FEE4}']),
        '\u{FCAB}' => Some(seq!['\u{FEA7}', '\u{FEA0}']),
        '\u{FCAC}' => Some(seq!['\u{FEA7}', '\u{FEE4}']),
        '\u{FCAD}' => Some(seq!['\u{FEB3}', '\u{FEA0}']),
        '\u{FCAE}' => Some(seq!['\u{FEB3}', '\u{FEA4}']),
        '\u{FCAF}' => Some(seq!['\u{FEB3}', '\u{FEA8}']),
        '\u{FCB0}' => Some(seq!['\u{FEB3}', '\u{FEE4}']),
        '\u{FCB1}' => Some(seq!['\u{FEBB}', '\u{FEA4}']),
        '\u{FCB2}' => Some(seq!['\u{FEBB}', '\u{FEA8}']),
        '\u{FCB3}' => Some(seq!['\u{FEBB}', '\u{FEE4}']),
        '\u{FCB4}' => Some(seq!['\u{FEBF}', '\u{FEA0}']),
        '\u{FCB5}' => Some(seq!['\u{FEBF}', '\u{FEA4}']),
        '\u{FCB6}' => Some(seq!['\u{FEBF}', '\u{FEA8}']),
        '\u{FCB7}' => Some(seq!['\u{FEBF}', '\u{FEE4}']),
        '\u{FCB8}' => Some(seq!['\u{FEC3}', '\u{FEA4}']),
        '\u{FCB9}' => Some(seq!['\u{FEC7}', '\u{FEE4}']),
        '\u{FCBA}' => Some(seq!['\u{FECB}', '\u{FEA0}']),
        '\u{FCBB}' => Some(seq!['\u{FECB}', '\u{FEE4}']),
        '\u{FCBC}' => Some(seq!['\u{FECF}', '\u{FEA0}']),
        '\u{FCBD}' => Some(seq!['\u{FECF}', '\u{FEE4}']),
        '\u{FCBE}' => Some(seq!['\u{FED3}', '\u{FEA0}']),
        '\u{FCBF}' => Some(seq!['\u{FED3}', '\u{FEA4}']),
        '\u{FCC0}' => Some(seq!['\u{FED3}', '\u{FEA8}']),
        '\u{FCC1}' => Some(seq!['\u{FED3}', '\u{FEE4}']),
        '\u{FCC2}' => Some(seq!['\u{FED7}', '\u{FEA4}']),
        '\u{FCC3}' => Some(seq!['\u{FED7}', '\u{FEE4}']),
        '\u{FCC4}' => Some(seq!['\u{FEDB}', '\u{FEA0}']),
        '\u{FCC5}' => Some(seq!['\u{FEDB}', '\u{FEA4}']),
        '\u{FCC6}' => Some(seq!['\u{FEDB}', '\u{FEA8}']),
        '\u{FCC7}' => Some(seq!['\u{FEDB}', '\u{FEE0}']),
        '\u{FCC8}' => Some(seq!['\u{FEDB}', '\u{FEE4}']),
        '\u{FCC9}' => Some(seq!['\u{FEDF}', '\u{FEA0}']),
        '\u{FCCA}' => Some(seq!['\u{FEDF}', '\u{FEA4}']),
        '\u{FCCB}' => Some(seq!['\u{FEDF}', '\u{FEA8}']),
        '\u{FCCC}' => Some(seq!['\u{FEDF}', '\u{FEE4}']),
        '\u{FCCD}' => Some(seq!['\u{FEDF}', '\u{FEEC}']),
        '\u{FCCE}' => Some(seq!['\u{FEE3}', '\u{FEA0}']),
        '\u{FCCF}' => Some(seq!['\u{FEE3}', '\u{FEA4}']),
        '\u{FCD0}' => Some(seq!['\u{FEE3}', '\u{FEA8}']),
        '\u{FCD1}' => Some(seq!['\u{FEE3}', '\u{FEE4}']),
        '\u{FCD2}' => Some(seq!['\u{FEE7}', '\u{FEA0}']),
        '\u{FCD3}' => Some(seq!['\u{FEE7}', '\u{FEA4}']),
        '\u{FCD4}' => Some(seq!['\u{FEE7}', '\u{FEA8}']),
        '\u{FCD5}' => Some(seq!['\u{FEE7}', '\u{FEE4}']),
        '\u{FCD6}' => Some(seq!['\u{FEE7}', '\u{FEEC}']),
        '\u{FCD7}' => Some(seq!['\u{FEEB}', '\u{FEA0}']),
        '\u{FCD8}' => Some(seq!['\u{FEEB}', '\u{FEE4}']),
        '\u{FCDA}' => Some(seq!['\u{FEF3}', '\u{FEA0}']),
        '\u{FCDB}' => Some(seq!['\u{FEF3}', '\u{FEA4}']),
        '\u{FCDC}' => Some(seq!['\u{FEF3}', '\u{FEA8}']),
        '\u{FCDD}' => Some(seq!['\u{FEF3}', '\u{FEE4}']),
        '\u{FCDE}' => Some(seq!['\u{FEF3}', '\u{FEEC}']),
        '\u{FCDF}' => Some(seq!['\u{FE8C}', '\u{FEE4}']),
        '\u{FCE0}' => Some(seq!['\u{FE8C}', '\u{FEEC}']),
        '\u{FCE1}' => Some(seq!['\u{FE92}', '\u{FEE4}']),
        '\u{FCE2}' => Some(seq!['\u{FE92}', '\u{FEEC}']),
        '\u{FCE3}' => Some(seq!['\u{FE98}', '\u{FEE4}']),
        '\u{FCE4}' => Some(seq!['\u{FE98}', '\u{FEEC}']),
        '\u{FCE6}' => Some(seq!['\u{FE9C}', '\u{FEEC}']),
        '\u{FCE7}' => Some(seq!['\u{FEB4}', '\u{FEE4}']),
        '\u{FCE8}' => Some(seq!['\u{FEB4}', '\u{FEEC}']),
        '\u{FCE9}' => Some(seq!['\u{FEB8}', '\u{FEE4}']),
        '\u{FCEA}' => Some(seq!['\u{FEB8}', '\u{FEEC}']),
        '\u{FCEB}' => Some(seq!['\u{FEDC}', '\u{FEE0}']),
        '\u{FCEC}' => Some(seq!['\u{FEDC}', '\u{FEE4}']),
        '\u{FCED}' => Some(seq!['\u{FEE0}', '\u{FEE4}']),
        '\u{FCEE}' => Some(seq!['\u{FEE8}', '\u{FEE4}']),
        '\u{FCEF}' => Some(seq!['\u{FEE8}', '\u{FEEC}']),
        '\u{FCF0}' => Some(seq!['\u{FEF4}', '\u{FEE4}']),
        '\u{FCF1}' => Some(seq!['\u{FEF4}', '\u{FEEC}']),
        '\u{FCF5}' => Some(seq!['\u{FEC3}', '\u{FEF0}']),
        '\u{FCF6}' => Some(seq!['\u{FEC3}', '\u{FEF2}']),
        '\u{FCF7}' => Some(seq!['\u{FECB}', '\u{FEF0}']),
        '\u{FCF8}' => Some(seq!['\u{FECB}', '\u{FEF2}']),
        '\u{FCF9}' => Some(seq!['\u{FECF}', '\u{FEF0}']),
        '\u{FCFA}' => Some(seq!['\u{FECF}', '\u{FEF2}']),
        '\u{FCFB}' => Some(seq!['\u{FEB3}', '\u{FEF0}']),
        '\u{FCFC}' => Some(seq!['\u{FEB3}', '\u{FEF2}']),
        '\u{FCFD}' => Some(seq!['\u{FEB7}', '\u{FEF0}']),
        '\u{FCFE}' => Some(seq!['\u{FEB7}', '\u{FEF2}']),
        '\u{FCFF}' => Some(seq!['\u{FEA3}', '\u{FEF0}']),
        '\u{FD00}' => Some(seq!['\u{FEA3}', '\u{FEF2}']),
        '\u{FD01}' => Some(seq!['\u{FE9F}', '\u{FEF0}']),
        '\u{FD02}' => Some(seq!['\u{FE9F}', '\u{FEF2}']),
        '\u{FD03}' => Some(seq!['\u{FEA7}', '\u{FEF0}']),
        '\u{FD04}' => Some(seq!['\u{FEA7}', '\u{FEF2}']),
        '\u{FD05}' => Some(seq!['\u{FEBB}', '\u{FEF0}']),
        '\u{FD06}' => Some(seq!['\u{FEBB}', '\u{FEF2}']),
        '\u{FD07}' => Some(seq!['\u{FEBF}', '\u{FEF0}']),
        '\u{FD08}' => Some(seq!['\u{FEBF}', '\u{FEF2}']),
        '\u{FD09}' => Some(seq!['\u{FEB7}', '\u{FE9E}']),
        '\u{FD0A}' => Some(seq!['\u{FEB7}', '\u{FEA2}']),
        '\u{FD0B}' => Some(seq!['\u{FEB7}', '\u{FEA6}']),
        '\u{FD0C}' => Some(seq!['\u{FEB7}', '\u{FEE2}']),
        '\u{FD0D}' => Some(seq!['\u{FEB7}', '\u{FEAE}']),
        '\u{FD0E}' => Some(seq!['\u{FEB3}', '\u{FEAE}']),
        '\u{FD0F}' => Some(seq!['\u{FEBB}', '\u{FEAE}']),
        '\u{FD10}' => Some(seq!['\u{FEBF}', '\u{FEAE}']),
        '\u{FD11}' => Some(seq!['\u{FEC4}', '\u{FEF0}']),
        '\u{FD12}' => Some(seq!['\u{FEC4}', '\u{FEF2}']),
        '\u{FD13}' => Some(seq!['\u{FECC}', '\u{FEF0}']),
        '\u{FD14}' => Some(seq!['\u{FECC}', '\u{FEF2}']),
        '\u{FD15}' => Some(seq!['\u{FED0}', '\u{FEF0}']),
        '\u{FD16}' => Some(seq!['\u{FED0}', '\u{FEF2}']),
        '\u{FD17}' => Some(seq!['\u{FEB4}', '\u{FEF0}']),
        '\u{FD18}' => Some(seq!['\u{FEB4}', '\u{FEF2}']),
        '\u{FD19}' => Some(seq!['\u{FEB8}', '\u{FEF0}']),
        '\u{FD1A}' => Some(seq!['\u{FEB8}', '\u{FEF2}']),
        '\u{FD1B}' => Some(seq!['\u{FEA4}', '\u{FEF0}']),
        '\u{FD1C}' => Some(seq!['\u{FEA4}', '\u{FEF2}']),
        '\u{FD1D}' => Some(seq!['\u{FEA0}', '\u{FEF0}']),
        '\u{FD1E}' => Some(seq!['\u{FEA0}', '\u{FEF2}']),
        '\u{FD1F}' => Some(seq!['\u{FEA8}', '\u{FEF0}']),
        '\u{FD20}' => Some(seq!['\u{FEA8}', '\u{FEF2}']),
        '\u{FD21}' => Some(seq!['\u{FEBC}', '\u{FEF0}']),
        '\u{FD22}' => Some(seq!['\u{FEBC}', '\u{FEF2}']),
        '\u{FD23}' => Some(seq!['\u{FEC0}', '\u{FEF0}']),
        '\u{FD24}' => Some(seq!['\u{FEC0}', '\u{FEF2}']),
        '\u{FD25}' => Some(seq!['\u{FEB8}', '\u{FE9E}']),
        '\u{FD26}' => Some(seq!['\u{FEB8}', '\u{FEA2}']),
        '\u{FD27}' => Some(seq!['\u{FEB8}', '\u{FEA6}']),
        '\u{FD28}' => Some(seq!['\u{FEB8}', '\u{FEE2}']),
        '\u{FD29}' => Some(seq!['\u{FEB8}', '\u{FEAE}']),
        '\u{FD2A}' => Some(seq!['\u{FEB4}', '\u{FEAE}']),
        '\u{FD2B}' => Some(seq!['\u{FEBC}', '\u{FEAE}']),
        '\u{FD2C}' => Some(seq!['\u{FEC0}', '\u{FEAE}']),
        '\u{FD2D}' => Some(seq!['\u{FEB7}', '\u{FEA0}']),
        '\u{FD2E}' => Some(seq!['\u{FEB7}', '\u{FEA4}']),
        '\u{FD2F}' => Some(seq!['\u{FEB7}', '\u{FEA8}']),
        '\u{FD30}' => Some(seq!['\u{FEB7}', '\u{FEE4}']),
        '\u{FD31}' => Some(seq!['\u{FEB3}', '\u{FEEC}']),
        '\u{FD32}' => Some(seq!['\u{FEB7}', '\u{FEEC}']),
        '\u{FD33}' => Some(seq!['\u{FEC3}', '\u{FEE4}']),
        '\u{FD34}' => Some(seq!['\u{FEB4}', '\u{FEA0}']),
        '\u{FD35}' => Some(seq!['\u{FEB4}', '\u{FEA4}']),
        '\u{FD36}' => Some(seq!['\u{FEB4}', '\u{FEA8}']),
        '\u{FD37}' => Some(seq!['\u{FEB8}', '\u{FEA0}']),
        '\u{FD38}' => Some(seq!['\u{FEB8}', '\u{FEA4}']),
        '\u{FD39}' => Some(seq!['\u{FEB8}', '\u{FEA8}']),
        '\u{FD3A}' => Some(seq!['\u{FEC4}', '\u{FEE4}']),
        '\u{FD3B}' => Some(seq!['\u{FEC8}', '\u{FEE4}']),
        '\u{FD3C}' => Some(seq!['\u{FE8E}', '\u{FC5F}']),
        '\u{FD3D}' => Some(seq!['\u{FE8D}', '\u{FC5F}']),
        '\u{FD50}' => Some(seq!['\u{FE97}', '\u{FEA0}', '\u{FEE4}']),
        '\u{FD51}' => Some(seq!['\u{FE98}', '\u{FEA4}', '\u{FE9E}']),
        '\u{FD52}' => Some(seq!['\u{FE97}', '\u{FEA4}', '\u{FEA0}']),
        '\u{FD53}' => Some(seq!['\u{FE97}', '\u{FEA4}', '\u{FEE4}']),
        '\u{FD54}' => Some(seq!['\u{FE97}', '\u{FEA8}', '\u{FEE4}']),
        '\u{FD55}' => Some(seq!['\u{FE97}', '\u{FEE4}', '\u{FEA0}']),
        '\u{FD56}' => Some(seq!['\u{FE97}', '\u{FEE4}', '\u{FEA4}']),
        '\u{FD57}' => Some(seq!['\u{FE97}', '\u{FEE4}', '\u{FEA8}']),
        '\u{FD58}' => Some(seq!['\u{FEA0}', '\u{FEE4}', '\u{FEA2}']),
        '\u{FD59}' => Some(seq!['\u{FE9F}', '\u{FEE4}', '\u{FEA4}']),
        '\u{FD5A}' => Some(seq!['\u{FEA4}', '\u{FEE4}', '\u{FEF2}']),
        '\u{FD5B}' => Some(seq!['\u{FEA4}', '\u{FEE4}', '\u{FEF0}']),
        '\u{FD5C}' => Some(seq!['\u{FEB3}', '\u{FEA4}', '\u{FEA0}']),
        '\u{FD5D}' => Some(seq!['\u{FEB3}', '\u{FEA0}', '\u{FEA4}']),
        '\u{FD5E}' => Some(seq!['\u{FEB4}', '\u{FEA0}', '\u{FEF0}']),
        '\u{FD5F}' => Some(seq!['\u{FEB4}', '\u{FEE4}', '\u{FEA2}']),
        '\u{FD60}' => Some(seq!['\u{FEB3}', '\u{FEE4}', '\u{FEA4}']),
        '\u{FD61}' => Some(seq!['\u{FEB3}', '\u{FEE4}', '\u{FEA0}']),
        '\u{FD62}' => Some(seq!['\u{FEB4}', '\u{FEE4}', '\u{FEE2}']),
        '\u{FD63}' => Some(seq!['\u{FEB3}', '\u{FEE4}', '\u{FEE4}']),
        '\u{FD64}' => Some(seq!['\u{FEBC}', '\u{FEA4}', '\u{FEA2}']),
        '\u{FD65}' => Some(seq!['\u{FEBB}', '\u{FEA4}', '\u{FEA4}']),
        '\u{FD66}' => Some(seq!['\u{FEBC}', '\u{FEE4}', '\u{FEE2}']),
        '\u{FD67}' => Some(seq!['\u{FEB8}', '\u{FEA4}', '\u{FEE2}']),
        '\u{FD68}' => Some(seq!['\u{FEB7}', '\u{FEA4}', '\u{FEE4}']),
        '\u{FD69}' => Some(seq!['\u{FEB8}', '\u{FEA0}', '\u{FEF2}']),
        '\u{FD6A}' => Some(seq!['\u{FEB8}', '\u{FEE4}', '\u{FEA6}']),
        '\u{FD6B}' => Some(seq!['\u{FEB7}', '\u{FEE4}', '\u{FEA8}']),
        '\u{FD6C}' => Some(seq!['\u{FEB8}', '\u{FEE4}', '\u{FEE2}']),
        '\u{FD6D}' => Some(seq!['\u{FEB7}', '\u{FEE4}', '\u{FEE4}']),
        '\u{FD6E}' => Some(seq!['\u{FEC0}', '\u{FEA4}', '\u{FEF0}']),
        '\u{FD6F}' => Some(seq!['\u{FEC0}', '\u{FEA8}', '\u{FEE2}']),
        '\u{FD70}' => Some(seq!['\u{FEBF}', '\u{FEA8}', '\u{FEE4}']),
        '\u{FD71}' => Some(seq!['\u{FEC4}', '\u{FEE4}', '\u{FEA2}']),
        '\u{FD72}' => Some(seq!['\u{FEC3}', '\u{FEE4}', '\u{FEA4}']),
        '\u{FD73}' => Some(seq!['\u{FEC3}', '\u{FEE4}', '\u{FEE4}']),
        '\u{FD74}' => Some(seq!['\u{FEC4}', '\u{FEE4}', '\u{FEF2}']),
        '\u{FD75}' => Some(seq!['\u{FECC}', '\u{FEA0}', '\u{FEE2}']),
        '\u{FD76}' => Some(seq!['\u{FECC}', '\u{FEE4}', '\u{FEE2}']),
        '\u{FD77}' => Some(seq!['\u{FECB}', '\u{FEE4}', '\u{FEE4}']),
        '\u{FD78}' => Some(seq!['\u{FECC}', '\u{FEE4}', '\u{FEF0}']),
        '\u{FD79}' => Some(seq!['\u{FED0}', '\u{FEE4}', '\u{FEE2}']),
        '\u{FD7A}' => Some(seq!['\u{FED0}', '\u{FEE4}', '\u{FEF2}']),
        '\u{FD7B}' => Some(seq!['\u{FED0}', '\u{FEE4}', '\u{FEF0}']),
        '\u{FD7C}' => Some(seq!['\u{FED4}', '\u{FEA8}', '\u{FEE2}']),
        '\u{FD7D}' => Some(seq!['\u{FED3}', '\u{FEA8}', '\u{FEE4}']),
        '\u{FD7E}' => Some(seq!['\u{FED8}', '\u{FEE4}', '\u{FEA2}']),
        '\u{FD7F}' => Some(seq!['\u{FED8}', '\u{FEE4}', '\u{FEE2}']),
        '\u{FD80}' => Some(seq!['\u{FEE0}', '\u{FEA8}', '\u{FEE2}']),
        '\u{FD81}' => Some(seq!['\u{FEE0}', '\u{FEA4}', '\u{FEF2}']),
        '\u{FD82}' => Some(seq!['\u{FEE0}', '\u{FEA4}', '\u{FEF0}']),
        '\u{FD83}' => Some(seq!['\u{FEDF}', '\u{FEA0}', '\u{FEA0}']),
        '\u{FD84}' => Some(seq!['\u{FEE0}', '\u{FEA0}', '\u{FE9E}']),
        '\u{FD86}' => Some(seq!['\u{FEDF}', '\u{FEA8}', '\u{FEE4}']),
        '\u{FD87}' => Some(seq!['\u{FEE0}', '\u{FEE4}', '\u{FEA2}']),
        '\u{FD88}' => Some(seq!['\u{FEDF}', '\u{FEE4}', '\u{FEA4}']),
        '\u{FD89}' => Some(seq!['\u{FEE3}', '\u{FEA4}', '\u{FEA0}']),
        '\u{FD8A}' => Some(seq!['\u{FEE3}', '\u{FEA4}', '\u{FEE4}']),
        '\u{FD8B}' => Some(seq!['\u{FEE4}', '\u{FEA4}', '\u{FEF2}']),
        '\u{FD8C}' => Some(seq!['\u{FEE3}', '\u{FEA0}', '\u{FEA4}']),
        '\u{FD8D}' => Some(seq!['\u{FEE3}', '\u{FEA0}', '\u{FEE4}']),
        '\u{FD8E}' => Some(seq!['\u{FEE3}', '\u{FEA8}', '\u{FEA0}']),
        '\u{FD8F}' => Some(seq!['\u{FEE3}', '\u{FEA8}', '\u{FEE4}']),
        '\u{FD92}' => Some(seq!['\u{FEE3}', '\u{FEA0}', '\u{FEA8}']),
        '\u{FD93}' => Some(seq!['\u{FEEB}', '\u{FEE4}', '\u{FEA0}']),
        '\u{FD94}' => Some(seq!['\u{FEEB}', '\u{FEE4}', '\u{FEE4}']),
        '\u{FD95}' => Some(seq!['\u{FEE7}', '\u{FEA4}', '\u{FEE4}']),
        '\u{FD96}' => Some(seq!['\u{FEE8}', '\u{FEA4}', '\u{FEF0}']),
        '\u{FD97}' => Some(seq!['\u{FEE8}', '\u{FEA4}', '\u{FEE2}']),
        '\u{FD98}' => Some(seq!['\u{FEE7}', '\u{FEA0}', '\u{FEE4}']),
        '\u{FD99}' => Some(seq!['\u{FEE8}', '\u{FEA0}', '\u{FEF0}']),
        '\u{FD9A}' => Some(seq!['\u{FEE8}', '\u{FEE4}', '\u{FEF2}']),
        '\u{FD9B}' => Some(seq!['\u{FEE8}', '\u{FEE4}', '\u{FEF0}']),
        '\u{FD9C}' => Some(seq!['\u{FEF4}', '\u{FEE4}', '\u{FEE2}']),
        '\u{FD9D}' => Some(seq!['\u{FEF3}', '\u{FEE4}', '\u{FEE4}']),
        '\u{FD9E}' => Some(seq!['\u{FE92}', '\u{FEA8}', '\u{FEF2}']),
        '\u{FD9F}' => Some(seq!['\u{FE98}', '\u{FEA0}', '\u{FEF2}']),
        '\u{FDA0}' => Some(seq!['\u{FE98}', '\u{FEA0}', '\u{FEF0}']),
        '\u{FDA1}' => Some(seq!['\u{FE98}', '\u{FEA8}', '\u{FEF2}']),
        '\u{FDA2}' => Some(seq!['\u{FE98}', '\u{FEA8}', '\u{FEF0}']),
        '\u{FDA3}' => Some(seq!['\u{FE98}', '\u{FEE4}', '\u{FEF2}']),
        '\u{FDA4}' => Some(seq!['\u{FE98}', '\u{FEE4}', '\u{FEF0}']),
        '\u{FDA5}' => Some(seq!['\u{FEA0}', '\u{FEE4}', '\u{FEF2}']),
        '\u{FDA6}' => Some(seq!['\u{FEA0}', '\u{FEA4}', '\u{FEF0}']),
        '\u{FDA7}' => Some(seq!['\u{FEA0}', '\u{FEE4}', '\u{FEF0}']),
        '\u{FDA8}' => Some(seq!['\u{FEB4}', '\u{FEA8}', '\u{FEF0}']),
        '\u{FDA9}' => Some(seq!['\u{FEBC}', '\u{FEA4}', '\u{FEF2}']),
        '\u{FDAA}' => Some(seq!['\u{FEB8}', '\u{FEA4}', '\u{FEF2}']),
        '\u{FDAB}' => Some(seq!['\u{FEC0}', '\u{FEA4}', '\u{FEF2}']),
        '\u{FDAC}' => Some(seq!['\u{FEE0}', '\u{FEA0}', '\u{FEF2}']),
        '\u{FDAD}' => Some(seq!['\u{FEE0}', '\u{FEE4}', '\u{FEF2}']),
        '\u{FDAE}' => Some(seq!['\u{FEF4}', '\u{FEA4}', '\u{FEF2}']),
        '\u{FDAF}' => Some(seq!['\u{FEF4}', '\u{FEA0}', '\u{FEF2}']),
        '\u{FDB0}' => Some(seq!['\u{FEF4}', '\u{FEE4}', '\u{FEF2}']),
        '\u{FDB1}' => Some(seq!['\u{FEE4}', '\u{FEE4}', '\u{FEF2}']),
        '\u{FDB2}' => Some(seq!['\u{FED8}', '\u{FEE4}', '\u{FEF2}']),
        '\u{FDB3}' => Some(seq!['\u{FEE8}', '\u{FEA4}', '\u{FEF2}']),
        '\u{FDB4}' => Some(seq!['\u{FED7}', '\u{FEE4}', '\u{FEA4}']),
        '\u{FDB5}' => Some(seq!['\u{FEDF}', '\u{FEA4}', '\u{FEE4}']),
        '\u{FDB6}' => Some(seq!['\u{FECC}', '\u{FEE4}', '\u{FEF2}']),
        '\u{FDB7}' => Some(seq!['\u{FEDC}', '\u{FEE4}', '\u{FEF2}']),
        '\u{FDB8}' => Some(seq!['\u{FEE7}', '\u{FEA0}', '\u{FEA4}']),
        '\u{FDB9}' => Some(seq!['\u{FEE4}', '\u{FEA8}', '\u{FEF2}']),
        '\u{FDBA}' => Some(seq!['\u{FEDF}', '\u{FEA0}', '\u{FEE4}']),
        '\u{FDBB}' => Some(seq!['\u{FEDC}', '\u{FEE4}', '\u{FEE2}']),
        '\u{FDBC}' => Some(seq!['\u{FEE0}', '\u{FEA0}', '\u{FEE2}']),
        '\u{FDBD}' => Some(seq!['\u{FEE8}', '\u{FEA0}', '\u{FEA2}']),
        '\u{FDBE}' => Some(seq!['\u{FEA0}', '\u{FEA4}', '\u{FEF2}']),
        '\u{FDBF}' => Some(seq!['\u{FEA4}', '\u{FEA0}', '\u{FEF2}']),
        '\u{FDC0}' => Some(seq!['\u{FEE4}', '\u{FEA0}', '\u{FEF2}']),
        '\u{FDC1}' => Some(seq!['\u{FED4}', '\u{FEE4}', '\u{FEF2}']),
        '\u{FDC2}' => Some(seq!['\u{FE92}', '\u{FEA4}', '\u{FEF2}']),
        '\u{FDC3}' => Some(seq!['\u{FEDB}', '\u{FEE4}', '\u{FEE4}']),
        '\u{FDC4}' => Some(seq!['\u{FECB}', '\u{FEA0}', '\u{FEE4}']),
        '\u{FDC5}' => Some(seq!['\u{FEBB}', '\u{FEE4}', '\u{FEE4}']),
        '\u{FDC6}' => Some(seq!['\u{FEB4}', '\u{FEA8}', '\u{FEF2}']),
        '\u{FDC7}' => Some(seq!['\u{FEE8}', '\u{FEA0}', '\u{FEF2}']),
        '\u{FDF2}' => Some(seq!['\u{FE8D}', '\u{FEDF}', '\u{FEE0}', '\u{FEEA}']),
        '\u{FDF3}' => Some(seq!['\u{FE8D}', '\u{FEDB}', '\u{FE92}', '\u{FEAE}']),
        '\u{FDF4}' => Some(seq!['\u{FEE3}', '\u{FEA4}', '\u{FEE4}', '\u{FEAA}']),
        '\u{FDF5}' => Some(seq!['\u{FEBB}', '\u{FEE0}', '\u{FECC}', '\u{FEE2}']),
        '\u{FDF6}' => Some(seq!['\u{FEAD}', '\u{FEB3}', '\u{FEEE}', '\u{FEDD}']),
        '\u{FDFA}' => Some(seq!['\u{FEBB}', '\u{FEE0}', '\u{FEF0}', '\u{0020}', '\u{FE8D}', '\u{FEDF}', '\u{FEE0}', '\u{FEEA}', '\u{0020}', '\u{FECB}', '\u{FEE0}', '\u{FEF4}', '\u{FEEA}', '\u{0020}', '\u{FEED}', '\u{FEB3}', '\u{FEE0}', '\u{FEE2}']),
        '\u{FDF7}' => Some(seq!['\u{FECB}', '\u{FEE0}', '\u{FEF4}', '\u{FEEA}']),
        '\u{FDF8}' => Some(seq!['\u{FEED}', '\u{FEB3}', '\u{FEE0}', '\u{FEE2}']),
        '\u{FDF9}' => Some(seq!['\u{FEBB}', '\u{FEE0}', '\u{FEF0}']),
        '\u{FDFB}' => Some(seq!['\u{FE9F}', '\u{FEDE}', '\u{0020}', '\u{FE9F}', '\u{FEFC}', '\u{FEDF}', '\u{FEEA}']),
        '\u{FDFC}' => Some(seq!['\u{FEAD}', '\u{FEF3}', '\u{FE8E}', '\u{FEDD}']),
        '\u{FDFD}' => Some(seq!['\u{FE91}', '\u{FEB4}', '\u{FEE2}', '\u{0020}', '\u{FE8D}', '\u{FEDF}', '\u{FEE0}', '\u{FEEA}', '\u{0020}', '\u{FE8D}', '\u{FEDF}', '\u{FEAE}', '\u{FEA3}', '\u{FEE4}', '\u{FEE6}', '\u{0020}', '\u{FE8D}', '\u{FEDF}', '\u{FEAE}', '\u{FEA3}', '\u{FEF4}', '\u{FEE2}']),
        _ => None,
    }
}

/// The letters a ligature stands for.
pub fn ligature_letters(c: char) -> (r: Option<Vec<char>>)
    ensures
        r is Some <==> spec_ligature_letters(c) is Some,
        r matches Some(v) ==> spec_ligature_letters(c) == Some(v@),
{
    match c {
        '\u{FEF5}' => Some(vec!['\u{FEDF}', '\u{FE82}']),
        '\u{FEF6}' => Some(vec!['\u{FEE0}', '\u{FE82}']),
        '\u{FEF7}' => Some(vec!['\u{FEDF}', '\u{FE84}']),
        '\u{FEF8}' => Some(vec!['\u{FEE0}', '\u{FE84}']),
        '\u{FEF9}' => Some(vec!['\u{FEDF}', '\u{FE88}']),
        '\u{FEFA}' => Some(vec!['\u{FEE0}', '\u{FE88}']),
        '\u{FEFB}' => Some(vec!['\u{FEDF}', '\u{FE8E}']),
        '\u{FEFC}' => Some(vec!['\u{FEE0}', '\u{FE8E}']),
        '\u{FBEA}' => Some(vec!['\u{FE8B}', '\u{FE8E}']),
        '\u{FBEB}' => Some(vec!['\u{FE8C}', '\u{FE8E}']),
        '\u{FBEC}' => Some(vec!['\u{FE8B}', '\u{FEEA}']),
        '\u{FBED}' => Some(vec!['\u{FE8C}', '\u{FEEA}']),
        '\u{FBEE}' => Some(vec!['\u{FE8B}', '\u{FEEE}']),
        '\u{FBEF}' => Some(vec!['\u{FE8C}', '\u{FEEE}']),
        '\u{FC04}' => Some(vec!['\u{FE8B}', '\u{FEF2}']),
        '\u{FC69}' => Some(vec!['\u{FE8C}', '\u{FEF2}']),
        '\u{FBF8}' => Some(vec!['\u{FE8B}', '\u{FEF4}']),
        '\u{FC03}' => Some(vec!['\u{FE8B}', '\u{FEF0}']),
        '\u{FC68}' => Some(vec!['\u{FE8C}', '\u{FEF0}']),
        '\u{FC00}' => Some(vec!['\u{FE8B}', '\u{FE9E}']),
        '\u{FC01}' => Some(vec!['\u{FE8B}', '\u{FEA2}']),
        '\u{FC02}' => Some(vec!['\u{FE8B}', '\u{FEE2}']),
        '\u{FC05}' => Some(vec!['\u{FE91}', '\u{FE9E}']),
        '\u{FC06}' => Some(vec!['\u{FE91}', '\u{FEA2}']),
        '\u{FC07}' => Some(vec!['\u{FE91}', '\u{FEA6}']),
        '\u{FC08}' => Some(vec!['\u{FE91}', '\u{FEE2}']),
        '\u{FC09}' => Some(vec!['\u{FE91}', '\u{FEF0}']),
        '\u{FC0A}' => Some(vec!['\u{FE91}', '\u{FEF2}']),
        '\u{FC0B}' => Some(vec!['\u{FE97}', '\u{FE9E}']),
        '\u{FC0C}' => Some(vec!['\u{FE97}', '\u{FEA2}']),
        '\u{FC0D}' => Some(vec!['\u{FE97}', '\u{FEA6}']),
        '\u{FC0E}' => Some(vec!['\u{FE97}', '\u{FEE2}']),
        '\u{FC0F}' => Some(vec!['\u{FE97}', '\u{FEF0}']),
        '\u{FC10}' => Some(vec!['\u{FE97}', '\u{FEF2}']),
        '\u{FC11}' => Some(vec!['\u{FE9B}', '\u{FE9E}']),
        '\u{FC12}' => Some(vec!['\u{FE9B}', '\u{FEE2}']),
        '\u{FC13}' => Some(vec!['\u{FE9B}', '\u{FEF0}']),
        '\u{FC14}' => Some(vec!['\u{FE9B}', '\u{FEF2}']),
        '\u{FC15}' => Some(vec!['\u{FE9F}', '\u{FEA2}']),
        '\u{FC16}' => Some(vec!['\u{FE9F}', '\u{FEE2}']),
        '\u{FC17}' => Some(vec!['\u{FEA3}', '\u{FE9E}']),
        '\u{FC18}' => Some(vec!['\u{FEA3}', '\u{FEE2}']),
        '\u{FC19}' => Some(vec!['\u{FEA7}', '\u{FE9E}']),
        '\u{FC1A}' => Some(vec!['\u{FEA7}', '\u{FEA2}']),
        '\u{FC1B}' => Some(vec!['\u{FEA7}', '\u{FEE2}']),
        '\u{FC1C}' => Some(vec!['\u{FEB3}', '\u{FE9E}']),
        '\u{FC1D}' => Some(vec!['\u{FEB3}', '\u{FEA2}']),
        '\u{FC1E}' => Some(vec!['\u{FEB3}', '\u{FEA6}']),
        '\u{FC1F}' => Some(vec!['\u{FEB3}', '\u{FEE2}']),
        '\u{FC20}' => Some(vec!['\u{FEBB}', '\u{FEA2}']),
        '\u{FC21}' => Some(vec!['\u{FEBB}', '\u{FEE2}']),
        '\u{FC22}' => Some(vec!['\u{FEBF}', '\u{FE9E}']),
        '\u{FC23}' => Some(vec!['\u{FEBF}', '\u{FEA2}']),
        '\u{FC24}' => Some(vec!['\u{FEBF}', '\u{FEA6}']),
        '\u{FC25}' => Some(vec!['\u{FEBF}', '\u{FEE2}']),
        '\u{FC26}' => Some(vec!['\u{FEC3}', '\u{FEA2}']),
        '\u{FC27}' => Some(vec!['\u{FEC3}', '\u{FEE2}']),
        '\u{FC28}' => Some(vec!['\u{FEC7}', '\u{FEE2}']),
        '\u{FC29}' => Some(vec!['\u{FECB}', '\u{FE9E}']),
        '\u{FC2A}' => Some(vec!['\u{FECB}', '\u{FEE2}']),
        '\u{FC2B}' => Some(vec!['\u{FECF}', '\u{FE9E}']),
        '\u{FC2C}' => Some(vec!['\u{FECF}', '\u{FEE2}']),
        '\u{FC2D}' => Some(vec!['\u{FED3}', '\u{FE9E}']),
        '\u{FC2E}' => Some(vec!['\u{FED3}', '\u{FEA2}']),
        '\u{FC2F}' => Some(vec!['\u{FED3}', '\u{FEA6}']),
        '\u{FC30}' => Some(vec!['\u{FED3}', '\u{FEE2}']),
        '\u{FC31}' => Some(vec!['\u{FED3}', '\u{FEF0}']),
        '\u{FC32}' => Some(vec!['\u{FED3}', '\u{FEF2}']),
        '\u{FC33}' => Some(vec!['\u{FED7}', '\u{FEA2}']),
        '\u{FC34}' => Some(vec!['\u{FED7}', '\u{FEE2}']),
        '\u{FC35}' => Some(vec!['\u{FED7}', '\u{FEF0}']),
        '\u{FC36}' => Some(vec!['\u{FED7}', '\u{FEF2}']),
        '\u{FC37}' => Some(vec!['\u{FEDB}', '\u{FE8E}']),
        '\u{FC38}' => Some(vec!['\u{FEDB}', '\u{FE9E}']),
        '\u{FC39}' => Some(vec!['\u{FEDB}', '\u{FEA2}']),
        '\u{FC3A}' => Some(vec!['\u{FEDB}', '\u{FEA6}']),
        '\u{FC3B}' => Some(vec!['\u{FEDB}', '\u{FEDE}']),
        '\u{FC3C}' => Some(vec!['\u{FEDB}', '\u{FEE2}']),
        '\u{FC3D}' => Some(vec!['\u{FEDB}', '\u{FEF0}']),
        '\u{FC3E}' => Some(vec!['\u{FEDB}', '\u{FEF2}']),
        '\u{FC3F}' => Some(vec!['\u{FEDF}', '\u{FE9E}']),
        '\u{FC40}' => Some(vec!['\u{FEDF}', '\u{FEA2}']),
        '\u{FC41}' => Some(vec!['\u{FEDF}', '\u{FEA6}']),
        '\u{FC42}' => Some(vec!['\u{FEDF}', '\u{FEE2}']),
        '\u{FC43}' => Some(vec!['\u{FEDF}', '\u{FEF0}']),
        '\u{FC44}' => Some(vec!['\u{FEDF}', '\u{FEF2}']),
        '\u{FC45}' => Some(vec!['\u{FEE3}', '\u{FE9E}']),
        '\u{FC46}' => Some(vec!['\u{FEE3}', '\u{FEA2}']),
        '\u{FC47}' => Some(vec!['\u{FEE3}', '\u{FEA6}']),
        '\u{FC48}' => Some(vec!['\u{FEE3}', '\u{FEE2}']),
        '\u{FC49}' => Some(vec!['\u{FEE3}', '\u{FEF0}']),
        '\u{FC4A}' => Some(vec!['\u{FEE3}', '\u{FEF2}']),
        '\u{FC4B}' => Some(vec!['\u{FEE7}', '\u{FE9E}']),
        '\u{FC4C}' => Some(vec!['\u{FEE7}', '\u{FEA2}']),
        '\u{FC4D}' => Some(vec!['\u{FEE7}', '\u{FEA6}']),
        '\u{FC4E}' => Some(vec!['\u{FEE7}', '\u{FEE2}']),
        '\u{FC4F}' => Some(vec!['\u{FEE7}', '\u{FEF0}']),
        '\u{FC50}' => Some(vec!['\u{FEE7}', '\u{FEF2}']),
        '\u{FC51}' => Some(vec!['\u{FEEB}', '\u{FE9E}']),
        '\u{FC52}' => Some(vec!['\u{FEEB}', '\u{FEE2}']),
        '\u{FC53}' => Some(vec!['\u{FEEB}', '\u{FEF0}']),
        '\u{FC54}' => Some(vec!['\u{FEEB}', '\u{FEF2}']),
        '\u{FC55}' => Some(vec!['\u{FEF3}', '\u{FE9E}']),
        '\u{FC56}' => Some(vec!['\u{FEF3}', '\u{FEA2}']),
        '\u{FC57}' => Some(vec!['\u{FEF3}', '\u{FEA6}']),
        '\u{FC58}' => Some(vec!['\u{FEF3}', '\u{FEE2}']),
        '\u{FC59}' => Some(vec!['\u{FEF3}', '\u{FEF0}']),
        '\u{FC5A}' => Some(vec!['\u{FEF3}', '\u{FEF2}']),
        '\u{FC5E}' => Some(vec!['\u{FE7C}', '\u{FE72}']),
        '\u{FC5F}' => Some(vec!['\u{FE7C}', '\u{FE74}']),
        '\u{FC60}' => Some(vec!['\u{FE7C}', '\u{FE76}']),
        '\u{FC61}' => Some(vec!['\u{FE7C}', '\u{FE78}']),
        '\u{FC62}' => Some(vec!['\u{FE7C}', '\u{FE7A}']),
        '\u{FC64}' => Some(vec!['\u{FE8C}', '\u{FEAE}']),
        '\u{FC65}' => Some(vec!['\u{FE8C}', '\u{FEB0}']),
        '\u{FC66}' => Some(vec!['\u{FE8C}', '\u{FEE2}']),
        '\u{FC67}' => Some(vec!['\u{FE8C}', '\u{FEE6}']),
        '\u{FC6A}' => Some(vec!['\u{FE92}', '\u{FEAE}']),
        '\u{FC6B}' => Some(vec!['\u{FE92}', '\u{FEB0}']),
        '\u{FC6C}' => Some(vec!['\u{FE92}', '\u{FEE2}']),
        '\u{FC6D}' => Some(vec!['\u{FE92}', '\u{FEE6}']),
        '\u{FC6E}' => Some(vec!['\u{FE92}', '\u{FEF0}']),
        '\u{FC6F}' => Some(vec!['\u{FE92}', '\u{FEF2}']),
        '\u{FC70}' => Some(vec!['\u{FE98}', '\u{FEAE}']),
        '\u{FC71}' => Some(vec!['\u{FE98}', '\u{FEB0}']),
        '\u{FC72}' => Some(vec!['\u{FE98}', '\u{FEE2}']),
        '\u{FC73}' => Some(vec!['\u{FE98}', '\u{FEE6}']),
        '\u{FC74}' => Some(vec!['\u{FE98}', '\u{FEF0}']),
        '\u{FC75}' => Some(vec!['\u{FE98}', '\u{FEF2}']),
        '\u{FC76}' => Some(vec!['\u{FE9C}', '\u{FEAE}']),
        '\u{FC77}' => Some(vec!['\u{FE9C}', '\u{FEB0}']),
        '\u{FC78}' => Some(vec!['\u{FE9C}', '\u{FEE2}']),
        '\u{FC79}' => Some(vec!['\u{FE9C}', '\u{FEE6}']),
        '\u{FC7A}' => Some(vec!['\u{FE9C}', '\u{FEF0}']),
        '\u{FC7B}' => Some(vec!['\u{FE9C}', '\u{FEF2}']),
        '\u{FC7C}' => Some(vec!['\u{FED4}', '\u{FEF0}']),
        '\u{FC7D}' => Some(vec!['\u{FED4}', '\u{FEF2}']),
        '\u{FC7E}' => Some(vec!['\u{FED8}', '\u{FEF0}']),
        '\u{FC7F}' => Some(vec!['\u{FED8}', '\u{FEF2}']),
        '\u{FC80}' => Some(vec!['\u{FEDC}', '\u{FE8E}']),
        '\u{FC81}' => Some(vec!['\u{FEDC}', '\u{FEDE}']),
        '\u{FC82}' => Some(vec!['\u{FEDC}', '\u{FEE2}']),
        '\u{FC83}' => Some(vec!['\u{FEDC}', '\u{FEF0}']),
        '\u{FC84}' => Some(vec!['\u{FEDC}', '\u{FEF2}']),
        '\u{FC85}' => Some(vec!['\u{FEE0}', '\u{FEE2}']),
        '\u{FC86}' => Some(vec!['\u{FEE0}', '\u{FEF0}']),
        '\u{FC87}' => Some(vec!['\u{FEE0}', '\u{FEF2}']),
        '\u{FC88}' => Some(vec!['\u{FEE4}', '\u{FE8E}']),
        '\u{FC89}' => Some(vec!['\u{FEE4}', '\u{FEE2}']),
        '\u{FC8A}' => Some(vec!['\u{FEE8}', '\u{FEAE}']),
        '\u{FC8B}' => Some(vec!['\u{FEE8}', '\u{FEB0}']),
        '\u{FC8C}' => Some(vec!['\u{FEE8}', '\u{FEE2}']),
        '\u{FC8D}' => Some(vec!['\u{FEE8}', '\u{FEE6}']),
        '\u{FC8E}' => Some(vec!['\u{FEE8}', '\u{FEF0}']),
        '\u{FC8F}' => Some(vec!['\u{FEE8}', '\u{FEF2}']),
        '\u{FC91}' => Some(vec!['\u{FEF4}', '\u{FEAE}']),
        '\u{FC92}' => Some(vec!['\u{FEF4}', '\u{FEB0}']),
        '\u{FC93}' => Some(vec!['\u{FEF4}', '\u{FEE2}']),
        '\u{FC94}' => Some(vec!['\u{FEF4}', '\u{FEE6}']),
        '\u{FC95}' => Some(vec!['\u{FEF4}', '\u{FEF0}']),
        '\u{FC96}' => Some(vec!['\u{FEF4}', '\u{FEF2}']),
        '\u{FC97}' => Some(vec!['\u{FE8B}', '\u{FEA0}']),
        '\u{FC98}' => Some(vec!['\u{FE8B}', '\u{FEA4}']),
        '\u{FC99}' => Some(vec!['\u{FE8B}', '\u{FEA8}']),
        '\u{FC9A}' => Some(vec!['\u{FE8B}', '\u{FEE4}']),
        '\u{FC9B}' => Some(vec!['\u{FE8B}', '\u{FEEC}']),
        '\u{FC9C}' => Some(vec!['\u{FE91}', '\u{FEA0}']),
        '\u{FC9D}' => Some(vec!['\u{FE91}', '\u{FEA4}']),
        '\u{FC9E}' => Some(vec!['\u{FE91}', '\u{FEA8}']),
        '\u{FC9F}' => Some(vec!['\u{FE91}', '\u{FEE4}']),
        '\u{FCA0}' => Some(vec!['\u{FE91}', '\u{FEEC}']),
        '\u{FCA1}' => Some(vec!['\u{FE97}', '\u{FEA0}']),
        '\u{FCA2}' => Some(vec!['\u{FE97}', '\u{FEA4}']),
        '\u{FCA3}' => Some(vec!['\u{FE97}', '\u{FEA8}']),
        '\u{FCA4}' => Some(vec!['\u{FE97}', '\u{FEE4}']),
        '\u{FCA5}' => Some(vec!['\u{FE97}', '\u{FEEC}']),
        '\u{FCE5}' => Some(vec!['\u{FE9C}', '\u{FEE4}']),
        '\u{FCA7}' => Some(vec!['\u{FE9F}', '\u{FEA4}']),
        '\u{FCA8}' => Some(vec!['\u{FE9F}', '\u{FEE4}']),
        '\u{FCA9}' => Some(vec!['\u{FEA3}', '\u{FEA0}']),
        '\u{FCAA}' => Some(vec!['\u{FEA3}', '\u{FEE4}']),
        '\u{FCAB}' => Some(vec!['\u{FEA7}', '\u{FEA0}']),
        '\u{FCAC}' => Some(vec!['\u{FEA7}', '\u{FEE4}']),
        '\u{FCAD}' => Some(vec!['\u{FEB3}', '\u{FEA0}']),
        '\u{FCAE}' => Some(vec!['\u{FEB3}', '\u{FEA4}']),
        '\u{FCAF}' => Some(vec!['\u{FEB3}', '\u{FEA8}']),
        '\u{FCB0}' => Some(vec!['\u{FEB3}', '\u{FEE4}']),
        '\u{FCB1}' => Some(vec!['\u{FEBB}', '\u{FEA4}']),
        '\u{FCB2}' => Some(vec!['\u{FEBB}', '\u{FEA8}']),
        '\u{FCB3}' => Some(vec!['\u{FEBB}', '\u{FEE4}']),
        '\u{FCB4}' => Some(vec!['\u{FEBF}', '\u{FEA0}']),
        '\u{FCB5}' => Some(vec!['\u{FEBF}', '\u{FEA4}']),
        '\u{FCB6}' => Some(vec!['\u{FEBF}', '\u{FEA8}']),
        '\u{FCB7}' => Some(vec!['\u{FEBF}', '\u{FEE4}']),
        '\u{FCB8}' => Some(vec!['\u{FEC3}', '\u{FEA4}']),
        '\u{FCB9}' => Some(vec!['\u{FEC7}', '\u{FEE4}']),
        '\u{FCBA}' => Some(vec!['\u{FECB}', '\u{FEA0}']),
        '\u{FCBB}' => Some(vec!['\u{FECB}', '\u{FEE4}']),
        '\u{FCBC}' => Some(vec!['\u{FECF}', '\u{FEA0}']),
        '\u{FCBD}' => Some(vec!['\u{FECF}', '\u{FEE4}']),
        '\u{FCBE}' => Some(vec!['\u{FED3}', '\u{FEA0}']),
        '\u{FCBF}' => Some(vec!['\u{FED3}', '\u{FEA4}']),
        '\u{FCC0}' => Some(vec!['\u{FED3}', '\u{FEA8}']),
        '\u{FCC1}' => Some(vec!['\u{FED3}', '\u{FEE4}']),
        '\u{FCC2}' => Some(vec!['\u{FED7}', '\u{FEA4}']),
        '\u{FCC3}' => Some(vec!['\u{FED7}', '\u{FEE4}']),
        '\u{FCC4}' => Some(vec!['\u{FEDB}', '\u{FEA0}']),
        '\u{FCC5}' => Some(vec!['\u{FEDB}', '\u{FEA4}']),
        '\u{FCC6}' => Some(vec!['\u{FEDB}', '\u{FEA8}']),
        '\u{FCC7}' => Some(vec!['\u{FEDB}', '\u{FEE0}']),
        '\u{FCC8}' => Some(vec!['\u{FEDB}', '\u{FEE4}']),
        '\u{FCC9}' => Some(vec!['\u{FEDF}', '\u{FEA0}']),
        '\u{FCCA}' => Some(vec!['\u{FEDF}', '\u{FEA4}']),
        '\u{FCCB}' => Some(vec!['\u{FEDF}', '\u{FEA8}']),
        '\u{FCCC}' => Some(vec!['\u{FEDF}', '\u{FEE4}']),
        '\u{FCCD}' => Some(vec!['\u{FEDF}', '\u{FEEC}']),
        '\u{FCCE}' => Some(vec!['\u{FEE3}', '\u{FEA0}']),
        '\u{FCCF}' => Some(vec!['\u{FEE3}', '\u{FEA4}']),
        '\u{FCD0}' => Some(vec!['\u{FEE3}', '\u{FEA8}']),
        '\u{FCD1}' => Some(vec!['\u{FEE3}', '\u{FEE4}']),
        '\u{FCD2}' => Some(vec!['\u{FEE7}', '\u{FEA0}']),
        '\u{FCD3}' => Some(vec!['\u{FEE7}', '\u{FEA4}']),
        '\u{FCD4}' => Some(vec!['\u{FEE7}', '\u{FEA8}']),
        '\u{FCD5}' => Some(vec!['\u{FEE7}', '\u{FEE4}']),
        '\u{FCD6}' => Some(vec!['\u{FEE7}', '\u{FEEC}']),
        '\u{FCD7}' => Some(vec!['\u{FEEB}', '\u{FEA0}']),
        '\u{FCD8}' => Some(vec!['\u{FEEB}', '\u{FEE4}']),
        '\u{FCDA}' => Some(vec!['\u{FEF3}', '\u{FEA0}']),
        '\u{FCDB}' => Some(vec!['\u{FEF3}', '\u{FEA4}']),
        '\u{FCDC}' => Some(vec!['\u{FEF3}', '\u{FEA8}']),
        '\u{FCDD}' => Some(vec!['\u{FEF3}', '\u{FEE4}']),
        '\u{FCDE}' => Some(vec!['\u{FEF3}', '\u{FEEC}']),
        '\u{FCDF}' => Some(vec!['\u{FE8C}', '\u{FEE4}']),
        '\u{FCE0}' => Some(vec!['\u{FE8C}', '\u{FEEC}']),
        '\u{FCE1}' => Some(vec!['\u{FE92}', '\u{FEE4}']),
        '\u{FCE2}' => Some(vec!['\u{FE92}', '\u{FEEC}']),
        '\u{FCE3}' => Some(vec!['\u{FE98}', '\u{FEE4}']),
        '\u{FCE4}' => Some(vec!['\u{FE98}', '\u{FEEC}']),
        '\u{FCE6}' => Some(vec!['\u{FE9C}', '\u{FEEC}']),
        '\u{FCE7}' => Some(vec!['\u{FEB4}', '\u{FEE4}']),
        '\u{FCE8}' => Some(vec!['\u{FEB4}', '\u{FEEC}']),
        '\u{FCE9}' => Some(vec!['\u{FEB8}', '\u{FEE4}']),
        '\u{FCEA}' => Some(vec!['\u{FEB8}', '\u{FEEC}']),
        '\u{FCEB}' => Some(vec!['\u{FEDC}', '\u{FEE0}']),
        '\u{FCEC}' => Some(vec!['\u{FEDC}', '\u{FEE4}']),
        '\u{FCED}' => Some(vec!['\u{FEE0}', '\u{FEE4}']),
        '\u{FCEE}' => Some(vec!['\u{FEE8}', '\u{FEE4}']),
        '\u{FCEF}' => Some(vec!['\u{FEE8}', '\u{FEEC}']),
        '\u{FCF0}' => Some(vec!['\u{FEF4}', '\u{FEE4}']),
        '\u{FCF1}' => Some(vec!['\u{FEF4}', '\u{FEEC}']),
        '\u{FCF5}' => Some(vec!['\u{FEC3}', '\u{FEF0}']),
        '\u{FCF6}' => Some(vec!['\u{FEC3}', '\u{FEF2}']),
        '\u{FCF7}' => Some(vec!['\u{FECB}', '\u{FEF0}']),
        '\u{FCF8}' => Some(vec!['\u{FECB}', '\u{FEF2}']),
        '\u{FCF9}' => Some(vec!['\u{FECF}', '\u{FEF0}']),
        '\u{FCFA}' => Some(vec!['\u{FECF}', '\u{FEF2}']),
        '\u{FCFB}' => Some(vec!['\u{FEB3}', '\u{FEF0}']),
        '\u{FCFC}' => Some(vec!['\u{FEB3}', '\u{FEF2}']),
        '\u{FCFD}' => Some(vec!['\u{FEB7}', '\u{FEF0}']),
        '\u{FCFE}' => Some(vec!['\u{FEB7}', '\u{FEF2}']),
        '\u{FCFF}' => Some(vec!['\u{FEA3}', '\u{FEF0}']),
        '\u{FD00}' => Some(vec!['\u{FEA3}', '\u{FEF2}']),
        '\u{FD01}' => Some(vec!['\u{FE9F}', '\u{FEF0}']),
        '\u{FD02}' => Some(vec!['\u{FE9F}', '\u{FEF2}']),
        '\u{FD03}' => Some(vec!['\u{FEA7}', '\u{FEF0}']),
        '\u{FD04}' => Some(vec!['\u{FEA7}', '\u{FEF2}']),
        '\u{FD05}' => Some(vec!['\u{FEBB}', '\u{FEF0}']),
        '\u{FD06}' => Some(vec!['\u{FEBB}', '\u{FEF2}']),
        '\u{FD07}' => Some(vec!['\u{FEBF}', '\u{FEF0}']),
        '\u{FD08}' => Some(vec!['\u{FEBF}', '\u{FEF2}']),
        '\u{FD09}' => Some(vec!['\u{FEB7}', '\u{FE9E}']),
        '\u{FD0A}' => Some(vec!['\u{FEB7}', '\u{FEA2}']),
        '\u{FD0B}' => Some(vec!['\u{FEB7}', '\u{FEA6}']),
        '\u{FD0C}' => Some(vec!['\u{FEB7}', '\u{FEE2}']),
        '\u{FD0D}' => Some(vec!['\u{FEB7}', '\u{FEAE}']),
        '\u{FD0E}' => Some(vec!['\u{FEB3}', '\u{FEAE}']),
        '\u{FD0F}' => Some(vec!['\u{FEBB}', '\u{FEAE}']),
        '\u{FD10}' => Some(vec!['\u{FEBF}', '\u{FEAE}']),
        '\u{FD11}' => Some(vec!['\u{FEC4}', '\u{FEF0}']),
        '\u{FD12}' => Some(vec!['\u{FEC4}', '\u{FEF2}']),
        '\u{FD13}' => Some(vec!['\u{FECC}', '\u{FEF0}']),
        '\u{FD14}' => Some(vec!['\u{FECC}', '\u{FEF2}']),
        '\u{FD15}' => Some(vec!['\u{FED0}', '\u{FEF0}']),
        '\u{FD16}' => Some(vec!['\u{FED0}', '\u{FEF2}']),
        '\u{FD17}' => Some(vec!['\u{FEB4}', '\u{FEF0}']),
        '\u{FD18}' => Some(vec!['\u{FEB4}', '\u{FEF2}']),
        '\u{FD19}' => Some(vec!['\u{FEB8}', '\u{FEF0}']),
        '\u{FD1A}' => Some(vec!['\u{FEB8}', '\u{FEF2}']),
        '\u{FD1B}' => Some(vec!['\u{FEA4}', '\u{FEF0}']),
        '\u{FD1C}' => Some(vec!['\u{FEA4}', '\u{FEF2}']),
        '\u{FD1D}' => Some(vec!['\u{FEA0}', '\u{FEF0}']),
        '\u{FD1E}' => Some(vec!['\u{FEA0}', '\u{FEF2}']),
        '\u{FD1F}' => Some(vec!['\u{FEA8}', '\u{FEF0}']),
        '\u{FD20}' => Some(vec!['\u{FEA8}', '\u{FEF2}']),
        '\u{FD21}' => Some(vec!['\u{FEBC}', '\u{FEF0}']),
        '\u{FD22}' => Some(vec!['\u{FEBC}', '\u{FEF2}']),
        '\u{FD23}' => Some(vec!['\u{FEC0}', '\u{FEF0}']),
        '\u{FD24}' => Some(vec!['\u{FEC0}', '\u{FEF2}']),
        '\u{FD25}' => Some(vec!['\u{FEB8}', '\u{FE9E}']),
        '\u{FD26}' => Some(vec!['\u{FEB8}', '\u{FEA2}']),
        '\u{FD27}' => Some(vec!['\u{FEB8}', '\u{FEA6}']),
        '\u{FD28}' => Some(vec!['\u{FEB8}', '\u{FEE2}']),
        '\u{FD29}' => Some(vec!['\u{FEB8}', '\u{FEAE}']),
        '\u{FD2A}' => Some(vec!['\u{FEB4}', '\u{FEAE}']),
        '\u{FD2B}' => Some(vec!['\u{FEBC}', '\u{FEAE}']),
        '\u{FD2C}' => Some(vec!['\u{FEC0}', '\u{FEAE}']),
        '\u{FD2D}' => Some(vec!['\u{FEB7}', '\u{FEA0}']),
        '\u{FD2E}' => Some(vec!['\u{FEB7}', '\u{FEA4}']),
        '\u{FD2F}' => Some(vec!['\u{FEB7}', '\u{FEA8}']),
        '\u{FD30}' => Some(vec!['\u{FEB7}', '\u{FEE4}']),
        '\u{FD31}' => Some(vec!['\u{FEB3}', '\u{FEEC}']),
        '\u{FD32}' => Some(vec!['\u{FEB7}', '\u{FEEC}']),
        '\u{FD33}' => Some(vec!['\u{FEC3}', '\u{FEE4}']),
        '\u{FD34}' => Some(vec!['\u{FEB4}', '\u{FEA0}']),
        '\u{FD35}' => Some(vec!['\u{FEB4}', '\u{FEA4}']),
        '\u{FD36}' => Some(vec!['\u{FEB4}', '\u{FEA8}']),
        '\u{FD37}' => Some(vec!['\u{FEB8}', '\u{FEA0}']),
        '\u{FD38}' => Some(vec!['\u{FEB8}', '\u{FEA4}']),
        '\u{FD39}' => Some(vec!['\u{FEB8}', '\u{FEA8}']),
        '\u{FD3A}' => Some(vec!['\u{FEC4}', '\u{FEE4}']),
        '\u{FD3B}' => Some(vec!['\u{FEC8}', '\u{FEE4}']),
        '\u{FD3C}' => Some(vec!['\u{FE8E}', '\u{FC5F}']),
        '\u{FD3D}' => Some(vec!['\u{FE8D}', '\u{FC5F}']),
        '\u{FD50}' => Some(vec!['\u{FE97}', '\u{FEA0}', '\u{FEE4}']),
        '\u{FD51}' => Some(vec!['\u{FE98}', '\u{FEA4}', '\u{FE9E}']),
        '\u{FD52}' => Some(vec!['\u{FE97}', '\u{FEA4}', '\u{FEA0}']),
        '\u{FD53}' => Some(vec!['\u{FE97}', '\u{FEA4}', '\u{FEE4}']),
        '\u{FD54}' => Some(vec!['\u{FE97}', '\u{FEA8}', '\u{FEE4}']),
        '\u{FD55}' => Some(vec!['\u{FE97}', '\u{FEE4}', '\u{FEA0}']),
        '\u{FD56}' => Some(vec!['\u{FE97}', '\u{FEE4}', '\u{FEA4}']),
        '\u{FD57}' => Some(vec!['\u{FE97}', '\u{FEE4}', '\u{FEA8}']),
        '\u{FD58}' => Some(vec!['\u{FEA0}', '\u{FEE4}', '\u{FEA2}']),
        '\u{FD59}' => Some(vec!['\u{FE9F}', '\u{FEE4}', '\u{FEA4}']),
        '\u{FD5A}' => Some(vec!['\u{FEA4}', '\u{FEE4}', '\u{FEF2}']),
        '\u{FD5B}' => Some(vec!['\u{FEA4}', '\u{FEE4}', '\u{FEF0}']),
        '\u{FD5C}' => Some(vec!['\u{FEB3}', '\u{FEA4}', '\u{FEA0}']),
        '\u{FD5D}' => Some(vec!['\u{FEB3}', '\u{FEA0}', '\u{FEA4}']),
        '\u{FD5E}' => Some(vec!['\u{FEB4}', '\u{FEA0}', '\u{FEF0}']),
        '\u{FD5F}' => Some(vec!['\u{FEB4}', '\u{FEE4}', '\u{FEA2}']),
        '\u{FD60}' => Some(vec!['\u{FEB3}', '\u{FEE4}', '\u{FEA4}']),
        '\u{FD61}' => Some(vec!['\u{FEB3}', '\u{FEE4}', '\u{FEA0}']),
        '\u{FD62}' => Some(vec!['\u{FEB4}', '\u{FEE4}', '\u{FEE2}']),
        '\u{FD63}' => Some(vec!['\u{FEB3}', '\u{FEE4}', '\u{FEE4}']),
        '\u{FD64}' => Some(vec!['\u{FEBC}', '\u{FEA4}', '\u{FEA2}']),
        '\u{FD65}' => Some(vec!['\u{FEBB}', '\u{FEA4}', '\u{FEA4}']),
        '\u{FD66}' => Some(vec!['\u{FEBC}', '\u{FEE4}', '\u{FEE2}']),
        '\u{FD67}' => Some(vec!['\u{FEB8}', '\u{FEA4}', '\u{FEE2}']),
        '\u{FD68}' => Some(vec!['\u{FEB7}', '\u{FEA4}', '\u{FEE4}']),
        '\u{FD69}' => Some(vec!['\u{FEB8}', '\u{FEA0}', '\u{FEF2}']),
        '\u{FD6A}' => Some(vec!['\u{FEB8}', '\u{FEE4}', '\u{FEA6}']),
        '\u{FD6B}' => Some(vec!['\u{FEB7}', '\u{FEE4}', '\u{FEA8}']),
        '\u{FD6C}' => Some(vec!['\u{FEB8}', '\u{FEE4}', '\u{FEE2}']),
        '\u{FD6D}' => Some(vec!['\u{FEB7}', '\u{FEE4}', '\u{FEE4}']),
        '\u{FD6E}' => Some(vec!['\u{FEC0}', '\u{FEA4}', '\u{FEF0}']),
        '\u{FD6F}' => Some(vec!['\u{FEC0}', '\u{FEA8}', '\u{FEE2}']),
        '\u{FD70}' => Some(vec!['\u{FEBF}', '\u{FEA8}', '\u{FEE4}']),
        '\u{FD71}' => Some(vec!['\u{FEC4}', '\u{FEE4}', '\u{FEA2}']),
        '\u{FD72}' => Some(vec!['\u{FEC3}', '\u{FEE4}', '\u{FEA4}']),
        '\u{FD73}' => Some(vec!['\u{FEC3}', '\u{FEE4}', '\u{FEE4}']),
        '\u{FD74}' => Some(vec!['\u{FEC4}', '\u{FEE4}', '\u{FEF2}']),
        '\u{FD75}' => Some(vec!['\u{FECC}', '\u{FEA0}', '\u{FEE2}']),
        '\u{FD76}' => Some(vec!['\u{FECC}', '\u{FEE4}', '\u{FEE2}']),
        '\u{FD77}' => Some(vec!['\u{FECB}', '\u{FEE4}', '\u{FEE4}']),
        '\u{FD78}' => Some(vec!['\u{FECC}', '\u{FEE4}', '\u{FEF0}']),
        '\u{FD79}' => Some(vec!['\u{FED0}', '\u{FEE4}', '\u{FEE2}']),
        '\u{FD7A}' => Some(vec!['\u{FED0}', '\u{FEE4}', '\u{FEF2}']),
        '\u{FD7B}' => Some(vec!['\u{FED0}', '\u{FEE4}', '\u{FEF0}']),
        '\u{FD7C}' => Some(vec!['\u{FED4}', '\u{FEA8}', '\u{FEE2}']),
        '\u{FD7D}' => Some(vec!['\u{FED3}', '\u{FEA8}', '\u{FEE4}']),
        '\u{FD7E}' => Some(vec!['\u{FED8}', '\u{FEE4}', '\u{FEA2}']),
        '\u{FD7F}' => Some(vec!['\u{FED8}', '\u{FEE4}', '\u{FEE2}']),
        '\u{FD80}' => Some(vec!['\u{FEE0}', '\u{FEA8}', '\u{FEE2}']),
        '\u{FD81}' => Some(vec!['\u{FEE0}', '\u{FEA4}', '\u{FEF2}']),
        '\u{FD82}' => Some(vec!['\u{FEE0}', '\u{FEA4}', '\u{FEF0}']),
        '\u{FD83}' => Some(vec!['\u{FEDF}', '\u{FEA0}', '\u{FEA0}']),
        '\u{FD84}' => Some(vec!['\u{FEE0}', '\u{FEA0}', '\u{FE9E}']),
        '\u{FD86}' => Some(vec!['\u{FEDF}', '\u{FEA8}', '\u{FEE4}']),
        '\u{FD87}' => Some(vec!['\u{FEE0}', '\u{FEE4}', '\u{FEA2}']),
        '\u{FD88}' => Some(vec!['\u{FEDF}', '\u{FEE4}', '\u{FEA4}']),
        '\u{FD89}' => Some(vec!['\u{FEE3}', '\u{FEA4}', '\u{FEA0}']),
        '\u{FD8A}' => Some(vec!['\u{FEE3}', '\u{FEA4}', '\u{FEE4}']),
        '\u{FD8B}' => Some(vec!['\u{FEE4}', '\u{FEA4}', '\u{FEF2}']),
        '\u{FD8C}' => Some(vec!['\u{FEE3}', '\u{FEA0}', '\u{FEA4}']),
        '\u{FD8D}' => Some(vec!['\u{FEE3}', '\u{FEA0}', '\u{FEE4}']),
        '\u{FD8E}' => Some(vec!['\u{FEE3}', '\u{FEA8}', '\u{FEA0}']),
        '\u{FD8F}' => Some(vec!['\u{FEE3}', '\u{FEA8}', '\u{FEE4}']),
        '\u{FD92}' => Some(vec!['\u{FEE3}', '\u{FEA0}', '\u{FEA8}']),
        '\u{FD93}' => Some(vec!['\u{FEEB}', '\u{FEE4}', '\u{FEA0}']),
        '\u{FD94}' => Some(vec!['\u{FEEB}', '\u{FEE4}', '\u{FEE4}']),
        '\u{FD95}' => Some(vec!['\u{FEE7}', '\u{FEA4}', '\u{FEE4}']),
        '\u{FD96}' => Some(vec!['\u{FEE8}', '\u{FEA4}', '\u{FEF0}']),
        '\u{FD97}' => Some(vec!['\u{FEE8}', '\u{FEA4}', '\u{FEE2}']),
        '\u{FD98}' => Some(vec!['\u{FEE7}', '\u{FEA0}', '\u{FEE4}']),
        '\u{FD99}' => Some(vec!['\u{FEE8}', '\u{FEA0}', '\u{FEF0}']),
        '\u{FD9A}' => Some(vec!['\u{FEE8}', '\u{FEE4}', '\u{FEF2}']),
        '\u{FD9B}' => Some(vec!['\u{FEE8}', '\u{FEE4}', '\u{FEF0}']),
        '\u{FD9C}' => Some(vec!['\u{FEF4}', '\u{FEE4}', '\u{FEE2}']),
        '\u{FD9D}' => Some(vec!['\u{FEF3}', '\u{FEE4}', '\u{FEE4}']),
        '\u{FD9E}' => Some(vec!['\u{FE92}', '\u{FEA8}', '\u{FEF2}']),
        '\u{FD9F}' => Some(vec!['\u{FE98}', '\u{FEA0}', '\u{FEF2}']),
        '\u{FDA0}' => Some(vec!['\u{FE98}', '\u{FEA0}', '\u{FEF0}']),
        '\u{FDA1}' => Some(vec!['\u{FE98}', '\u{FEA8}', '\u{FEF2}']),
        '\u{FDA2}' => Some(vec!['\u{FE98}', '\u{FEA8}', '\u{FEF0}']),
        '\u{FDA3}' => Some(vec!['\u{FE98}', '\u{FEE4}', '\u{FEF2}']),
        '\u{FDA4}' => Some(vec!['\u{FE98}', '\u{FEE4}', '\u{FEF0}']),
        '\u{FDA5}' => Some(vec!['\u{FEA0}', '\u{FEE4}', '\u{FEF2}']),
        '\u{FDA6}' => Some(vec!['\u{FEA0}', '\u{FEA4}', '\u{FEF0}']),
        '\u{FDA7}' => Some(vec!['\u{FEA0}', '\u{FEE4}', '\u{FEF0}']),
        '\u{FDA8}' => Some(vec!['\u{FEB4}', '\u{FEA8}', '\u{FEF0}']),
        '\u{FDA9}' => Some(vec!['\u{FEBC}', '\u{FEA4}', '\u{FEF2}']),
        '\u{FDAA}' => Some(vec!['\u{FEB8}', '\u{FEA4}', '\u{FEF2}']),
        '\u{FDAB}' => Some(vec!['\u{FEC0}', '\u{FEA4}', '\u{FEF2}']),
        '\u{FDAC}' => Some(vec!['\u{FEE0}', '\u{FEA0}', '\u{FEF2}']),
        '\u{FDAD}' => Some(vec!['\u{FEE0}', '\u{FEE4}', '\u{FEF2}']),
        '\u{FDAE}' => Some(vec!['\u{FEF4}', '\u{FEA4}', '\u{FEF2}']),
        '\u{FDAF}' => Some(vec!['\u{FEF4}', '\u{FEA0}', '\u{FEF2}']),
        '\u{FDB0}' => Some(vec!['\u{FEF4}', '\u{FEE4}', '\u{FEF2}']),
        '\u{FDB1}' => Some(vec!['\u{FEE4}', '\u{FEE4}', '\u{FEF2}']),
        '\u{FDB2}' => Some(vec!['\u{FED8}', '\u{FEE4}', '\u{FEF2}']),
        '\u{FDB3}' => Some(vec!['\u{FEE8}', '\u{FEA4}', '\u{FEF2}']),
        '\u{FDB4}' => Some(vec!['\u{FED7}', '\u{FEE4}', '\u{FEA4}']),
        '\u{FDB5}' => Some(vec!['\u{FEDF}', '\u{FEA4}', '\u{FEE4}']),
        '\u{FDB6}' => Some(vec!['\u{FECC}', '\u{FEE4}', '\u{FEF2}']),
        '\u{FDB7}' => Some(vec!['\u{FEDC}', '\u{FEE4}', '\u{FEF2}']),
        '\u{FDB8}' => Some(vec!['\u{FEE7}', '\u{FEA0}', '\u{FEA4}']),
        '\u{FDB9}' => Some(vec!['\u{FEE4}', '\u{FEA8}', '\u{FEF2}']),
        '\u{FDBA}' => Some(vec!['\u{FEDF}', '\u{FEA0}', '\u{FEE4}']),
        '\u{FDBB}' => Some(vec!['\u{FEDC}', '\u{FEE4}', '\u{FEE2}']),
        '\u{FDBC}' => Some(vec!['\u{FEE0}', '\u{FEA0}', '\u{FEE2}']),
        '\u{FDBD}' => Some(vec!['\u{FEE8}', '\u{FEA0}', '\u{FEA2}']),
        '\u{FDBE}' => Some(vec!['\u{FEA0}', '\u{FEA4}', '\u{FEF2}']),
        '\u{FDBF}' => Some(vec!['\u{FEA4}', '\u{FEA0}', '\u{FEF2}']),
        '\u{FDC0}' => Some(vec!['\u{FEE4}', '\u{FEA0}', '\u{FEF2}']),
        '\u{FDC1}' => Some(vec!['\u{FED4}', '\u{FEE4}', '\u{FEF2}']),
        '\u{FDC2}' => Some(vec!['\u{FE92}', '\u{FEA4}', '\u{FEF2}']),
        '\u{FDC3}' => Some(vec!['\u{FEDB}', '\u{FEE4}', '\u{FEE4}']),
        '\u{FDC4}' => Some(vec!['\u{FECB}', '\u{FEA0}', '\u{FEE4}']),
        '\u{FDC5}' => Some(vec!['\u{FEBB}', '\u{FEE4}', '\u{FEE4}']),
        '\u{FDC6}' => Some(vec!['\u{FEB4}', '\u{FEA8}', '\u{FEF2}']),
        '\u{FDC7}' => Some(vec!['\u{FEE8}', '\u{FEA0}', '\u{FEF2}']),
        '\u{FDF2}' => Some(vec!['\u{FE8D}', '\u{FEDF}', '\u{FEE0}', '\u{FEEA}']),
        '\u{FDF3}' => Some(vec!['\u{FE8D}', '\u{FEDB}', '\u{FE92}', '\u{FEAE}']),
        '\u{FDF4}' => Some(vec!['\u{FEE3}', '\u{FEA4}', '\u{FEE4}', '\u{FEAA}']),
        '\u{FDF5}' => Some(vec!['\u{FEBB}', '\u{FEE0}', '\u{FECC}', '\u{FEE2}']),
        '\u{FDF6}' => Some(vec!['\u{FEAD}', '\u{FEB3}', '\u{FEEE}', '\u{FEDD}']),
        '\u{FDFA}' => Some(vec!['\u{FEBB}', '\u{FEE0}', '\u{FEF0}', '\u{0020}', '\u{FE8D}', '\u{FEDF}', '\u{FEE0}', '\u{FEEA}', '\u{0020}', '\u{FECB}', '\u{FEE0}', '\u{FEF4}', '\u{FEEA}', '\u{0020}', '\u{FEED}', '\u{FEB3}', '\u{FEE0}', '\u{FEE2}']),
        '\u{FDF7}' => Some(vec!['\u{FECB}', '\u{FEE0}', '\u{FEF4}', '\u{FEEA}']),
        '\u{FDF8}' => Some(vec!['\u{FEED}', '\u{FEB3}', '\u{FEE0}', '\u{FEE2}']),
        '\u{FDF9}' => Some(vec!['\u{FEBB}', '\u{FEE0}', '\u{FEF0}']),
        '\u{FDFB}' => Some(vec!['\u{FE9F}', '\u{FEDE}', '\u{0020}', '\u{FE9F}', '\u{FEFC}', '\u{FEDF}', '\u{FEEA}']),
        '\u{FDFC}' => Some(vec!['\u{FEAD}', '\u{FEF3}', '\u{FE8E}', '\u{FEDD}']),
        '\u{FDFD}' => Some(vec!['\u{FE91}', '\u{FEB4}', '\u{FEE2}', '\u{0020}', '\u{FE8D}', '\u{FEDF}', '\u{FEE0}', '\u{FEEA}', '\u{0020}', '\u{FE8D}', '\u{FEDF}', '\u{FEAE}', '\u{FEA3}', '\u{FEE4}', '\u{FEE6}', '\u{0020}', '\u{FE8D}', '\u{FEDF}', '\u{FEAE}', '\u{FEA3}', '\u{FEF4}', '\u{FEE2}']),
        _ => None,
    }
}

/// The joined form of a diacritic mark.
pub open spec fn spec_joined_haraka(c: char) -> Option<char> {
    match c {
        '\u{FE76}' => Some('\u{FE77}'),
        '\u{064E}' => Some('\u{FE77}'),
        '\u{FE78}' => Some('\u{FE79}'),
        '\u{064F}' => Some('\u{FE79}'),
        '\u{FE7A}' => Some('\u{FE7B}'),
        '\u{0650}' => Some('\u{FE7B}'),
        '\u{FE7C}' => Some('\u{FE7D}'),
        '\u{0651}' => Some('\u{FE7D}'),
        '\u{FE7E}' => Some('\u{FE7F}'),
        '\u{0652}' => Some('\u{FE7F}'),
        '\u{FC5F}' => Some('\u{FE71}'),
        '\u{FE70}' => Some('\u{FE71}'),
        '\u{064B}' => Some('\u{FE71}'),
        '\u{FC60}' => Some('\u{FCF2}'),
        '\u{FC61}' => Some('\u{FCF3}'),
        '\u{FC62}' => Some('\u{FCF4}'),
        _ => None,
    }
}

/// The joined form of a diacritic mark.
#[verifier::when_used_as_spec(spec_joined_haraka)]
pub fn joined_haraka(c: char) -> (r: Option<char>)
    ensures
        r == spec_joined_haraka(c),
{
    match c {
        '\u{FE76}' => Some('\u{FE77}'),
        '\u{064E}' => Some('\u{FE77}'),
        '\u{FE78}' => Some('\u{FE79}'),
        '\u{064F}' => Some('\u{FE79}'),
        '\u{FE7A}' => Some('\u{FE7B}'),
        '\u{0650}' => Some('\u{FE7B}'),
        '\u{FE7C}' => Some('\u{FE7D}'),
        '\u{0651}' => Some('\u{FE7D}'),
        '\u{FE7E}' => Some('\u{FE7F}'),
        '\u{0652}' => Some('\u{FE7F}'),
        '\u{FC5F}' => Some('\u{FE71}'),
        '\u{FE70}' => Some('\u{FE71}'),
        '\u{064B}' => Some('\u{FE71}'),
        '\u{FC60}' => Some('\u{FCF2}'),
        '\u{FC61}' => Some('\u{FCF3}'),
        '\u{FC62}' => Some('\u{FCF4}'),
        _ => None,
    }
}

/// The bracket that faces the other way.
pub open spec fn spec_mirrored_bracket(c: char) -> Option<char> {
    match c {
        '\u{0028}' => Some('\u{0029}'),
        '\u{0029}' => Some('\u{0028}'),
        '\u{003C}' => Some('\u{003E}'),
        '\u{003E}' => Some('\u{003C}'),
        '\u{005B}' => Some('\u{005D}'),
        '\u{005D}' => Some('\u{005B}'),
        '\u{007B}' => Some('\u{007D}'),
        '\u{007D}' => Some('\u{007B}'),
        '\u{2768}' => Some('\u{2769}'),
        '\u{2769}' => Some('\u{2768}'),
        '\u{276A}' => Some('\u{276B}'),
        '\u{276B}' => Some('\u{276A}'),
        '\u{276C}' => Some('\u{276D}'),
        '\u{276D}' => Some('\u{276C}'),
        '\u{276E}' => Some('\u{276F}'),
        '\u{276F}' => Some('\u{276E}'),
        '\u{2770}' => Some('\u{2771}'),
        '\u{2771}' => Some('\u{2770}'),
        '\u{2772}' => Some('\u{2773}'),
        '\u{2773}' => Some('\u{2772}'),
        '\u{2774}' => Some('\u{2775}'),
        '\u{2775}' => Some('\u{2774}'),
        '\u{27C5}' => Some('\u{27C6}'),
        '\u{27C6}' => Some('\u{27C5}'),
        '\u{27E6}' => Some('\u{27E7}'),
        '\u{27E7}' => Some('\u{27E6}'),
        '\u{27E8}' => Some('\u{27E9}'),
        '\u{27E9}' => Some('\u{27E8}'),
        '\u{27EA}' => Some('\u{27EB}'),
        '\u{27EB}' => Some('\u{27EA}'),
        '\u{27EC}' => Some('\u{27ED}'),
        '\u{27ED}' => Some('\u{27EC}'),
        '\u{27EE}' => Some('\u{27EF}'),
        '\u{27EF}' => Some('\u{27EE}'),
        '\u{2985}' => Some('\u{2986}'),
        '\u{2986}' => Some('\u{2985}'),
        '\u{298B}' => Some('\u{298C}'),
        '\u{298C}' => Some('\u{298B}'),
        '\u{298D}' => Some('\u{298E}'),
        '\u{298E}' => Some('\u{298D}'),
        '\u{2991}' => Some('\u{2992}'),
        '\u{2992}' => Some('\u{2991}'),
        '\u{2997}' => Some('\u{2998}'),
        '\u{2998}' => Some('\u{2997}'),
        '\u{29FC}' => Some('\u{29FD}'),
        '\u{29FD}' => Some('\u{29FC}'),
        '\u{3008}' => Some('\u{3009}'),
        '\u{3009}' => Some('\u{3008}'),
        '\u{300A}' => Some('\u{300B}'),
        '\u{300B}' => Some('\u{300A}'),
        '\u{300C}' => Some('\u{300D}'),
        '\u{300D}' => Some('\u{300C}'),
        '\u{300E}' => Some('\u{300F}'),
        '\u{300F}' => Some('\u{300E}'),
        '\u{3010}' => Some('\u{3011}'),
        '\u{3011}' => Some('\u{3010}'),
        '\u{3014}' => Some('\u{3015}'),
        '\u{3015}' => Some('\u{3014}'),
        '\u{3016}' => Some('\u{3017}'),
        '\u{3017}' => Some('\u{3016}'),
        '\u{3018}' => Some('\u{3019}'),
        '\u{3019}' => Some('\u{3018}'),
        '\u{301A}' => Some('\u{301B}'),
        '\u{301B}' => Some('\u{301A}'),
        '\u{FF1C}' => Some('\u{FF1E}'),
        '\u{FF1E}' => Some('\u{FF1C}'),
        _ => None,
    }
}

/// The bracket that faces the other way.
#[verifier::when_used_as_spec(spec_mirrored_bracket)]
pub fn mirrored_bracket(c: char) -> (r: Option<char>)
    ensures
        r == spec_mirrored_bracket(c),
{
    match c {
        '\u{0028}' => Some('\u{0029}'),
        '\u{0029}' => Some('\u{0028}'),
        '\u{003C}' => Some('\u{003E}'),
        '\u{003E}' => Some('\u{003C}'),
        '\u{005B}' => Some('\u{005D}'),
        '\u{005D}' => Some('\u{005B}'),
        '\u{007B}' => Some('\u{007D}'),
        '\u{007D}' => Some('\u{007B}'),
        '\u{2768}' => Some('\u{2769}'),
        '\u{2769}' => Some('\u{2768}'),
        '\u{276A}' => Some('\u{276B}'),
        '\u{276B}' => Some('\u{276A}'),
        '\u{276C}' => Some('\u{276D}'),
        '\u{276D}' => Some('\u{276C}'),
        '\u{276E}' => Some('\u{276F}'),
        '\u{276F}' => Some('\u{276E}'),
        '\u{2770}' => Some('\u{2771}'),
        '\u{2771}' => Some('\u{2770}'),
        '\u{2772}' => Some('\u{2773}'),
        '\u{2773}' => Some('\u{2772}'),
        '\u{2774}' => Some('\u{2775}'),
        '\u{2775}' => Some('\u{2774}'),
        '\u{27C5}' => Some('\u{27C6}'),
        '\u{27C6}' => Some('\u{27C5}'),
        '\u{27E6}' => Some('\u{27E7}'),
        '\u{27E7}' => Some('\u{27E6}'),
        '\u{27E8}' => Some('\u{27E9}'),
        '\u{27E9}' => Some('\u{27E8}'),
        '\u{27EA}' => Some('\u{27EB}'),
        '\u{27EB}' => Some('\u{27EA}'),
        '\u{27EC}' => Some('\u{27ED}'),
        '\u{27ED}' => Some('\u{27EC}'),
        '\u{27EE}' => Some('\u{27EF}'),
        '\u{27EF}' => Some('\u{27EE}'),
        '\u{2985}' => Some('\u{2986}'),
        '\u{2986}' => Some('\u{2985}'),
        '\u{298B}' => Some('\u{298C}'),
        '\u{298C}' => Some('\u{298B}'),
        '\u{298D}' => Some('\u{298E}'),
        '\u{298E}' => Some('\u{298D}'),
        '\u{2991}' => Some('\u{2992}'),
        '\u{2992}' => Some('\u{2991}'),
        '\u{2997}' => Some('\u{2998}'),
        '\u{2998}' => Some('\u{2997}'),
        '\u{29FC}' => Some('\u{29FD}'),
        '\u{29FD}' => Some('\u{29FC}'),
        '\u{3008}' => Some('\u{3009}'),
        '\u{3009}' => Some('\u{3008}'),
        '\u{300A}' => Some('\u{300B}'),
        '\u{300B}' => Some('\u{300A}'),
        '\u{300C}' => Some('\u{300D}'),
        '\u{300D}' => Some('\u{300C}'),
        '\u{300E}' => Some('\u{300F}'),
        '\u{300F}' => Some('\u{300E}'),
        '\u{3010}' => Some('\u{3011}'),
        '\u{3011}' => Some('\u{3010}'),
        '\u{3014}' => Some('\u{3015}'),
        '\u{3015}' => Some('\u{3014}'),
        '\u{3016}' => Some('\u{3017}'),
        '\u{3017}' => Some('\u{3016}'),
        '\u{3018}' => Some('\u{3019}'),
        '\u{3019}' => Some('\u{3018}'),
        '\u{301A}' => Some('\u{301B}'),
        '\u{301B}' => Some('\u{301A}'),
        '\u{FF1C}' => Some('\u{FF1E}'),
        '\u{FF1E}' => Some('\u{FF1C}'),
        _ => None,
    }
}

/// The single mark that two successive diacritic marks merge into.
pub open spec fn spec_merged_marks(a: char, b: char) -> Option<char> {
    match (a, b) {
        ('\u{0651}', '\u{064E}') => Some('\u{FC60}'),
        ('\u{0651}', '\u{FE76}') => Some('\u{FC60}'),
        ('\u{FE7C}', '\u{064E}') => Some('\u{FC60}'),
        ('\u{FE7C}', '\u{FE76}') => Some('\u{FC60}'),
        ('\u{FE7D}', '\u{064E}') => Some('\u{FCF2}'),
        ('\u{FE7D}', '\u{FE76}') => Some('\u{FCF2}'),
        ('\u{FE7D}', '\u{FE77}') => Some('\u{FCF2}'),
        ('\u{0651}', '\u{FE77}') => Some('\u{FCF2}'),
        ('\u{FE7C}', '\u{FE77}') => Some('\u{FCF2}'),
        ('\u{0651}', '\u{064F}') => Some('\u{FC61}'),
        ('\u{0651}', '\u{FE78}') => Some('\u{FC61}'),
        ('\u{FE7C}', '\u{064F}') => Some('\u{FC61}'),
        ('\u{FE7C}', '\u{FE78}') => Some('\u{FC61}'),
        ('\u{FE7D}', '\u{064F}') => Some('\u{FCF3}'),
        ('\u{FE7D}', '\u{FE78}') => Some('\u{FCF3}'),
        ('\u{FE7D}', '\u{FE79}') => Some('\u{FCF3}'),
        ('\u{0651}', '\u{FE79}') => Some('\u{FCF3}'),
        ('\u{FE7C}', '\u{FE79}') => Some('\u{FCF3}'),
        ('\u{0651}', '\u{0650}') => Some('\u{FC62}'),
        ('\u{0651}', '\u{FE7A}') => Some('\u{FC62}'),
        ('\u{FE7C}', '\u{0650}') => Some('\u{FC62}'),
        ('\u{FE7C}', '\u{FE7A}') => Some('\u{FC62}'),
        ('\u{FE7D}', '\u{0650}') => Some('\u{FCF4}'),
        ('\u{FE7D}', '\u{FE7A}') => Some('\u{FCF4}'),
        ('\u{FE7D}', '\u{FE7B}') => Some('\u{FCF4}'),
        ('\u{0651}', '\u{FE7B}') => Some('\u{FCF4}'),
        ('\u{FE7C}', '\u{FE7B}') => Some('\u{FCF4}'),
        ('\u{0651}', '\u{064C}') => Some('\u{FC5E}'),
        ('\u{0651}', '\u{FE72}') => Some('\u{FC5E}'),
        ('\u{FE7C}', '\u{064C}') => Some('\u{FC5E}'),
        ('\u{FE7C}', '\u{FE72}') => Some('\u{FC5E}'),
        ('\u{0651}', '\u{064D}') => Some('\u{FC5F}'),
        ('\u{0651}', '\u{FE74}') => Some('\u{FC5F}'),
        ('\u{FE7C}', '\u{064D}') => Some('\u{FC5F}'),
        ('\u{FE7C}', '\u{FE74}') => Some('\u{FC5F}'),
        _ => None,
    }
}

/// The single mark that two successive diacritic marks merge into.
#[verifier::when_used_as_spec(spec_merged_marks)]
pub fn merged_marks(a: char, b: char) -> (r: Option<char>)
    ensures
        r == spec_merged_marks(a, b),
{
    match (a, b) {
        ('\u{0651}', '\u{064E}') => Some('\u{FC60}'),
        ('\u{0651}', '\u{FE76}') => Some('\u{FC60}'),
        ('\u{FE7C}', '\u{064E}') => Some('\u{FC60}'),
        ('\u{FE7C}', '\u{FE76}') => Some('\u{FC60}'),
        ('\u{FE7D}', '\u{064E}') => Some('\u{FCF2}'),
        ('\u{FE7D}', '\u{FE76}') => Some('\u{FCF2}'),
        ('\u{FE7D}', '\u{FE77}') => Some('\u{FCF2}'),
        ('\u{0651}', '\u{FE77}') => Some('\u{FCF2}'),
        ('\u{FE7C}', '\u{FE77}') => Some('\u{FCF2}'),
        ('\u{0651}', '\u{064F}') => Some('\u{FC61}'),
        ('\u{0651}', '\u{FE78}') => Some('\u{FC61}'),
        ('\u{FE7C}', '\u{064F}') => Some('\u{FC61}'),
        ('\u{FE7C}', '\u{FE78}') => Some('\u{FC61}'),
        ('\u{FE7D}', '\u{064F}') => Some('\u{FCF3}'),
        ('\u{FE7D}', '\u{FE78}') => Some('\u{FCF3}'),
        ('\u{FE7D}', '\u{FE79}') => Some('\u{FCF3}'),
        ('\u{0651}', '\u{FE79}') => Some('\u{FCF3}'),
        ('\u{FE7C}', '\u{FE79}') => Some('\u{FCF3}'),
        ('\u{0651}', '\u{0650}') => Some('\u{FC62}'),
        ('\u{0651}', '\u{FE7A}') => Some('\u{FC62}'),
        ('\u{FE7C}', '\u{0650}') => Some('\u{FC62}'),
        ('\u{FE7C}', '\u{FE7A}') => Some('\u{FC62}'),
        ('\u{FE7D}', '\u{0650}') => Some('\u{FCF4}'),
        ('\u{FE7D}', '\u{FE7A}') => Some('\u{FCF4}'),
        ('\u{FE7D}', '\u{FE7B}') => Some('\u{FCF4}'),
        ('\u{0651}', '\u{FE7B}') => Some('\u{FCF4}'),
        ('\u{FE7C}', '\u{FE7B}') => Some('\u{FCF4}'),
        ('\u{0651}', '\u{064C}') => Some('\u{FC5E}'),
        ('\u{0651}', '\u{FE72}') => Some('\u{FC5E}'),
        ('\u{FE7C}', '\u{064C}') => Some('\u{FC5E}'),
        ('\u{FE7C}', '\u{FE72}') => Some('\u{FC5E}'),
        ('\u{0651}', '\u{064D}') => Some('\u{FC5F}'),
        ('\u{0651}', '\u{FE74}') => Some('\u{FC5F}'),
        ('\u{FE7C}', '\u{064D}') => Some('\u{FC5F}'),
        ('\u{FE7C}', '\u{FE74}') => Some('\u{FC5F}'),
        _ => None,
    }
}

/// A word that a line should not end with: it is kept with the word after it.
pub open spec fn spec_binds_to_next(w: Seq<char>) -> bool {
    w == seq!['\u{0645}', '\u{0646}'] ||
    w == seq!['\u{0625}', '\u{0644}', '\u{0649}'] ||
    w == seq!['\u{0639}', '\u{0644}', '\u{0649}'] ||
    w == seq!['\u{062B}', '\u{0645}'] ||
    w == seq!['\u{062D}', '\u{062A}', '\u{0649}'] ||
    w == seq!['\u{0628}', '\u{062F}', '\u{0648}', '\u{0646}'] ||
    w == seq!['\u{062F}', '\u{0648}', '\u{0646}'] ||
    w == seq!['\u{0644}', '\u{0646}'] ||
    w == seq!['\u{0625}', '\u{0630}', '\u{0646}'] ||
    w == seq!['\u{0644}', '\u{0645}', '\u{0627}'] ||
    w == seq!['\u{0643}', '\u{0623}', '\u{0646}'] ||
    w == seq!['\u{0644}', '\u{0643}', '\u{0646}'] ||
    w == seq!['\u{0644}', '\u{064A}', '\u{062A}'] ||
    w == seq!['\u{0644}', '\u{0639}', '\u{0644}'] ||
    w == seq!['\u{0645}', '\u{0627}'] ||
    w == seq!['\u{0644}', '\u{0648}'] ||
    w == seq!['\u{0625}', '\u{0630}', '\u{0627}'] ||
    w == seq!['\u{064A}', '\u{0627}'] ||
    w == seq!['\u{0623}', '\u{064A}', '\u{0627}'] ||
    w == seq!['\u{0647}', '\u{064A}', '\u{0627}'] ||
    w == seq!['\u{0647}', '\u{0644}'] ||
    w == seq!['\u{0645}', '\u{0639}'] ||
    w == seq!['\u{0627}', '\u{0644}', '\u{0630}', '\u{064A}'] ||
    w == seq!['\u{0627}', '\u{0644}', '\u{062A}', '\u{064A}'] ||
    w == seq!['\u{0627}', '\u{0644}', '\u{0630}', '\u{0627}', '\u{0646}'] ||
    w == seq!['\u{0627}', '\u{0644}', '\u{0644}', '\u{062A}', '\u{0627}', '\u{0646}'] ||
    w == seq!['\u{0627}', '\u{0644}', '\u{0630}', '\u{064A}', '\u{0646}'] ||
    w == seq!['\u{0627}', '\u{0644}', '\u{0644}', '\u{0648}', '\u{0627}', '\u{062A}', '\u{064A}'] ||
    w == seq!['\u{0627}', '\u{0644}', '\u{0644}', '\u{0627}', '\u{062A}', '\u{064A}'] ||
    w == seq!['\u{0627}', '\u{0644}', '\u{0644}', '\u{0627}', '\u{0626}', '\u{064A}'] ||
    w == seq!['\u{0648}'] ||
    w == seq!['\u{0623}', '\u{0645}'] ||
    w == seq!['\u{0623}', '\u{0646}'] ||
    w == seq!['\u{0625}', '\u{0646}'] ||
    w == seq!['\u{0623}', '\u{0648}'] ||
    w == seq!['\u{0623}', '\u{064A}'] ||
    w == seq!['\u{0625}', '\u{064A}'] ||
    w == seq!['\u{0628}', '\u{0644}'] ||
    w == seq!['\u{0639}', '\u{0646}'] ||
    w == seq!['\u{0641}', '\u{064A}'] ||
    w == seq!['\u{0642}', '\u{062F}'] ||
    w == seq!['\u{0644}', '\u{0642}', '\u{062F}'] ||
    w == seq!['\u{0643}', '\u{064A}'] ||
    w == seq!['\u{0644}', '\u{0627}'] ||
    w == seq!['\u{0644}', '\u{0645}'] ||
    w == seq!['\u{0645}', '\u{0630}'] ||
    w == seq!['\u{0645}', '\u{0646}', '\u{0630}'] ||
    w == seq!['\u{0647}', '\u{0627}'] ||
    w == seq!['\u{0648}', '\u{0627}'] ||
    w == seq!['\u{0648}', '\u{064A}'] ||
    w == seq!['\u{0623}', '\u{0644}', '\u{0627}'] ||
    w == seq!['\u{062C}', '\u{064A}', '\u{0631}'] ||
    w == seq!['\u{062E}', '\u{0644}', '\u{0627}'] ||
    w == seq!['\u{0631}', '\u{0628}'] ||
    w == seq!['\u{0633}', '\u{0648}', '\u{0641}'] ||
    w == seq!['\u{0639}', '\u{062F}', '\u{0627}'] ||
    w == seq!['\u{0625}', '\u{0644}', '\u{0627}'] ||
    w == seq!['\u{0625}', '\u{0645}', '\u{0627}'] ||
    w == seq!['\u{0623}', '\u{0645}', '\u{0627}'] ||
    w == seq!['\u{0647}', '\u{0644}', '\u{0627}'] ||
    w == seq!['\u{0644}', '\u{0648}', '\u{0644}', '\u{0627}'] ||
    w == seq!['\u{0644}', '\u{0648}', '\u{0645}', '\u{0627}']
}

/// Whether the word should not end a line.
pub fn binds_to_next(w: &Vec<char>) -> (r: bool)
    ensures
        r == spec_binds_to_next(w@),
{
    let word = ['\u{0645}', '\u{0646}'];
    assert(word@ =~= seq!['\u{0645}', '\u{0646}']);
    if text::eq_lit(w, &word) {
        return true;
    }
    let word = ['\u{0625}', '\u{0644}', '\u{0649}'];
    assert(word@ =~= seq!['\u{0625}', '\u{0644}', '\u{0649}']);
    if text::eq_lit(w, &word) {
        return true;
    }
    let word = ['\u{0639}', '\u{0644}', '\u{0649}'];
    assert(word@ =~= seq!['\u{0639}', '\u{0644}', '\u{0649}']);
    if text::eq_lit(w, &word) {
        return true;
    }
    let word = ['\u{062B}', '\u{0645}'];
    assert(word@ =~= seq!['\u{062B}', '\u{0645}']);
    if text::eq_lit(w, &word) {
        return true;
    }
    let word = ['\u{062D}', '\u{062A}', '\u{0649}'];
    assert(word@ =~= seq!['\u{062D}', '\u{062A}', '\u{0649}']);
    if text::eq_lit(w, &word) {
        return true;
    }
    let word = ['\u{0628}', '\u{062F}', '\u{0648}', '\u{0646}'];
    assert(word@ =~= seq!['\u{0628}', '\u{062F}', '\u{0648}', '\u{0646}']);
    if text::eq_lit(w, &word) {
        return true;
    }
    let word = ['\u{062F}', '\u{0648}', '\u{0646}'];
    assert(word@ =~= seq!['\u{062F}', '\u{0648}', '\u{0646}']);
    if text::eq_lit(w, &word) {
        return true;
    }
    let word = ['\u{0644}', '\u{0646}'];
    assert(word@ =~= seq!['\u{0644}', '\u{0646}']);
    if text::eq_lit(w, &word) {
        return true;
    }
    let word = ['\u{0625}', '\u{0630}', '\u{0646}'];
    assert(word@ =~= seq!['\u{0625}', '\u{0630}', '\u{0646}']);
    if text::eq_lit(w, &word) {
        return true;
    }
    let word = ['\u{0644}', '\u{0645}', '\u{0627}'];
    assert(word@ =~= seq!['\u{0644}', '\u{0645}', '\u{0627}']);
    if text::eq_lit(w, &word) {
        return true;
    }
    let word = ['\u{0643}', '\u{0623}', '\u{0646}'];
    assert(word@ =~= seq!['\u{0643}', '\u{0623}', '\u{0646}']);
    if text::eq_lit(w, &word) {
        return true;
    }
    let word = ['\u{0644}', '\u{0643}', '\u{0646}'];
    assert(word@ =~= seq!['\u{0644}', '\u{0643}', '\u{0646}']);
    if text::eq_lit(w, &word) {
        return true;
    }
    let word = ['\u{0644}', '\u{064A}', '\u{062A}'];
    assert(word@ =~= seq!['\u{0644}', '\u{064A}', '\u{062A}']);
    if text::eq_lit(w, &word) {
        return true;
    }
    let word = ['\u{0644}', '\u{0639}', '\u{0644}'];
    assert(word@ =~= seq!['\u{0644}', '\u{0639}', '\u{0644}']);
    if text::eq_lit(w, &word) {
        return true;
    }
    let word = ['\u{0645}', '\u{0627}'];
    assert(word@ =~= seq!['\u{0645}', '\u{0627}']);
    if text::eq_lit(w, &word) {
        return true;
    }
    let word = ['\u{0644}', '\u{0648}'];
    assert(word@ =~= seq!['\u{0644}', '\u{0648}']);
    if text::eq_lit(w, &word) {
        return true;
    }
    let word = ['\u{0625}', '\u{0630}', '\u{0627}'];
    assert(word@ =~= seq!['\u{0625}', '\u{0630}', '\u{0627}']);
    if text::eq_lit(w, &word) {
        return true;
    }
    let word = ['\u{064A}', '\u{0627}'];
    assert(word@ =~= seq!['\u{064A}', '\u{0627}']);
    if text::eq_lit(w, &word) {
        return true;
    }
    let word = ['\u{0623}', '\u{064A}', '\u{0627}'];
    assert(word@ =~= seq!['\u{0623}', '\u{064A}', '\u{0627}']);
    if text::eq_lit(w, &word) {
        return true;
    }
    let word = ['\u{0647}', '\u{064A}', '\u{0627}'];
    assert(word@ =~= seq!['\u{0647}', '\u{064A}', '\u{0627}']);
    if text::eq_lit(w, &word) {
        return true;
    }
    let word = ['\u{0647}', '\u{0644}'];
    assert(word@ =~= seq!['\u{0647}', '\u{0644}']);
    if text::eq_lit(w, &word) {
        return true;
    }
    let word = ['\u{0645}', '\u{0639}'];
    assert(word@ =~= seq!['\u{0645}', '\u{0639}']);
    if text::eq_lit(w, &word) {
        return true;
    }
    let word = ['\u{0627}', '\u{0644}', '\u{0630}', '\u{064A}'];
    assert(word@ =~= seq!['\u{0627}', '\u{0644}', '\u{0630}', '\u{064A}']);
    if text::eq_lit(w, &word) {
        return true;
    }
    let word = ['\u{0627}', '\u{0644}', '\u{062A}', '\u{064A}'];
    assert(word@ =~= seq!['\u{0627}', '\u{0644}', '\u{062A}', '\u{064A}']);
    if text::eq_lit(w, &word) {
        return true;
    }
    let word = ['\u{0627}', '\u{0644}', '\u{0630}', '\u{0627}', '\u{0646}'];
    assert(word@ =~= seq!['\u{0627}', '\u{0644}', '\u{0630}', '\u{0627}', '\u{0646}']);
    if text::eq_lit(w, &word) {
        return true;
    }
    let word = ['\u{0627}', '\u{0644}', '\u{0644}', '\u{062A}', '\u{0627}', '\u{0646}'];
    assert(word@ =~= seq!['\u{0627}', '\u{0644}', '\u{0644}', '\u{062A}', '\u{0627}', '\u{0646}']);
    if text::eq_lit(w, &word) {
        return true;
    }
    let word = ['\u{0627}', '\u{0644}', '\u{0630}', '\u{064A}', '\u{0646}'];
    assert(word@ =~= seq!['\u{0627}', '\u{0644}', '\u{0630}', '\u{064A}', '\u{0646}']);
    if text::eq_lit(w, &word) {
        return true;
    }
    let word = ['\u{0627}', '\u{0644}', '\u{0644}', '\u{0648}', '\u{0627}', '\u{062A}', '\u{064A}'];
    assert(word@ =~= seq!['\u{0627}', '\u{0644}', '\u{0644}', '\u{0648}', '\u{0627}', '\u{062A}', '\u{064A}']);
    if text::eq_lit(w, &word) {
        return true;
    }
    let word = ['\u{0627}', '\u{0644}', '\u{0644}', '\u{0627}', '\u{062A}', '\u{064A}'];
    assert(word@ =~= seq!['\u{0627}', '\u{0644}', '\u{0644}', '\u{0627}', '\u{062A}', '\u{064A}']);
    if text::eq_lit(w, &word) {
        return true;
    }
    let word = ['\u{0627}', '\u{0644}', '\u{0644}', '\u{0627}', '\u{0626}', '\u{064A}'];
    assert(word@ =~= seq!['\u{0627}', '\u{0644}', '\u{0644}', '\u{0627}', '\u{0626}', '\u{064A}']);
    if text::eq_lit(w, &word) {
        return true;
    }
    let word = ['\u{0648}'];
    assert(word@ =~= seq!['\u{0648}']);
    if text::eq_lit(w, &word) {
        return true;
    }
    let word = ['\u{0623}', '\u{0645}'];
    assert(word@ =~= seq!['\u{0623}', '\u{0645}']);
    if text::eq_lit(w, &word) {
        return true;
    }
    let word = ['\u{0623}', '\u{0646}'];
    assert(word@ =~= seq!['\u{0623}', '\u{0646}']);
    if text::eq_lit(w, &word) {
        return true;
    }
    let word = ['\u{0625}', '\u{0646}'];
    assert(word@ =~= seq!['\u{0625}', '\u{0646}']);
    if text::eq_lit(w, &word) {
        return true;
    }
    let word = ['\u{0623}', '\u{0648}'];
    assert(word@ =~= seq!['\u{0623}', '\u{0648}']);
    if text::eq_lit(w, &word) {
        return true;
    }
    let word = ['\u{0623}', '\u{064A}'];
    assert(word@ =~= seq!['\u{0623}', '\u{064A}']);
    if text::eq_lit(w, &word) {
        return true;
    }
    let word = ['\u{0625}', '\u{064A}'];
    assert(word@ =~= seq!['\u{0625}', '\u{064A}']);
    if text::eq_lit(w, &word) {
        return true;
    }
    let word = ['\u{0628}', '\u{0644}'];
    assert(word@ =~= seq!['\u{0628}', '\u{0644}']);
    if text::eq_lit(w, &word) {
        return true;
    }
    let word = ['\u{0639}', '\u{0646}'];
    assert(word@ =~= seq!['\u{0639}', '\u{0646}']);
    if text::eq_lit(w, &word) {
        return true;
    }
    let word = ['\u{0641}', '\u{064A}'];
    assert(word@ =~= seq!['\u{0641}', '\u{064A}']);
    if text::eq_lit(w, &word) {
        return true;
    }
    let word = ['\u{0642}', '\u{062F}'];
    assert(word@ =~= seq!['\u{0642}', '\u{062F}']);
    if text::eq_lit(w, &word) {
        return true;
    }
    let word = ['\u{0644}', '\u{0642}', '\u{062F}'];
    assert(word@ =~= seq!['\u{0644}', '\u{0642}', '\u{062F}']);
    if text::eq_lit(w, &word) {
        return true;
    }
    let word = ['\u{0643}', '\u{064A}'];
    assert(word@ =~= seq!['\u{0643}', '\u{064A}']);
    if text::eq_lit(w, &word) {
        return true;
    }
    let word = ['\u{0644}', '\u{0627}'];
    assert(word@ =~= seq!['\u{0644}', '\u{0627}']);
    if text::eq_lit(w, &word) {
        return true;
    }
    let word = ['\u{0644}', '\u{0645}'];
    assert(word@ =~= seq!['\u{0644}', '\u{0645}']);
    if text::eq_lit(w, &word) {
        return true;
    }
    let word = ['\u{0645}', '\u{0630}'];
    assert(word@ =~= seq!['\u{0645}', '\u{0630}']);
    if text::eq_lit(w, &word) {
        return true;
    }
    let word = ['\u{0645}', '\u{0646}', '\u{0630}'];
    assert(word@ =~= seq!['\u{0645}', '\u{0646}', '\u{0630}']);
    if text::eq_lit(w, &word) {
        return true;
    }
    let word = ['\u{0647}', '\u{0627}'];
    assert(word@ =~= seq!['\u{0647}', '\u{0627}']);
    if text::eq_lit(w, &word) {
        return true;
    }
    let word = ['\u{0648}', '\u{0627}'];
    assert(word@ =~= seq!['\u{0648}', '\u{0627}']);
    if text::eq_lit(w, &word) {
        return true;
    }
    let word = ['\u{0648}', '\u{064A}'];
    assert(word@ =~= seq!['\u{0648}', '\u{064A}']);
    if text::eq_lit(w, &word) {
        return true;
    }
    let word = ['\u{0623}', '\u{0644}', '\u{0627}'];
    assert(word@ =~= seq!['\u{0623}', '\u{0644}', '\u{0627}']);
    if text::eq_lit(w, &word) {
        return true;
    }
    let word = ['\u{062C}', '\u{064A}', '\u{0631}'];
    assert(word@ =~= seq!['\u{062C}', '\u{064A}', '\u{0631}']);
    if text::eq_lit(w, &word) {
        return true;
    }
    let word = ['\u{062E}', '\u{0644}', '\u{0627}'];
    assert(word@ =~= seq!['\u{062E}', '\u{0644}', '\u{0627}']);
    if text::eq_lit(w, &word) {
        return true;
    }
    let word = ['\u{0631}', '\u{0628}'];
    assert(word@ =~= seq!['\u{0631}', '\u{0628}']);
    if text::eq_lit(w, &word) {
        return true;
    }
    let word = ['\u{0633}', '\u{0648}', '\u{0641}'];
    assert(word@ =~= seq!['\u{0633}', '\u{0648}', '\u{0641}']);
    if text::eq_lit(w, &word) {
        return true;
    }
    let word = ['\u{0639}', '\u{062F}', '\u{0627}'];
    assert(word@ =~= seq!['\u{0639}', '\u{062F}', '\u{0627}']);
    if text::eq_lit(w, &word) {
        return true;
    }
    let word = ['\u{0625}', '\u{0644}', '\u{0627}'];
    assert(word@ =~= seq!['\u{0625}', '\u{0644}', '\u{0627}']);
    if text::eq_lit(w, &word) {
        return true;
    }
    let word = ['\u{0625}', '\u{0645}', '\u{0627}'];
    assert(word@ =~= seq!['\u{0625}', '\u{0645}', '\u{0627}']);
    if text::eq_lit(w, &word) {
        return true;
    }
    let word = ['\u{0623}', '\u{0645}', '\u{0627}'];
    assert(word@ =~= seq!['\u{0623}', '\u{0645}', '\u{0627}']);
    if text::eq_lit(w, &word) {
        return true;
    }
    let word = ['\u{0647}', '\u{0644}', '\u{0627}'];
    assert(word@ =~= seq!['\u{0647}', '\u{0644}', '\u{0627}']);
    if text::eq_lit(w, &word) {
        return true;
    }
    let word = ['\u{0644}', '\u{0648}', '\u{0644}', '\u{0627}'];
    assert(word@ =~= seq!['\u{0644}', '\u{0648}', '\u{0644}', '\u{0627}']);
    if text::eq_lit(w, &word) {
        return true;
    }
    let word = ['\u{0644}', '\u{0648}', '\u{0645}', '\u{0627}'];
    assert(word@ =~= seq!['\u{0644}', '\u{0648}', '\u{0645}', '\u{0627}']);
    if text::eq_lit(w, &word) {
        return true;
    }
    false
}

} // verus!
