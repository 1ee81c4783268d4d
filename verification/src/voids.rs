use vstd::prelude::*;

verus! {

/// The HTML5 void elements: tags that are self-closing and never take
/// content.  Matching is case-sensitive, over the exact bytes of the name.
pub open spec fn is_void_spec(name: Seq<u8>) -> bool {
    ||| name == seq!['a' as u8, 'r' as u8, 'e' as u8, 'a' as u8]
    ||| name == seq!['b' as u8, 'a' as u8, 's' as u8, 'e' as u8]
    ||| name == seq!['b' as u8, 'r' as u8]
    ||| name == seq!['c' as u8, 'o' as u8, 'l' as u8]
    ||| name == seq!['e' as u8, 'm' as u8, 'b' as u8, 'e' as u8, 'd' as u8]
    ||| name == seq!['h' as u8, 'r' as u8]
    ||| name == seq!['i' as u8, 'm' as u8, 'g' as u8]
    ||| name == seq!['i' as u8, 'n' as u8, 'p' as u8, 'u' as u8, 't' as u8]
    ||| name == seq!['l' as u8, 'i' as u8, 'n' as u8, 'k' as u8]
    ||| name == seq!['m' as u8, 'e' as u8, 't' as u8, 'a' as u8]
    ||| name == seq!['p' as u8, 'a' as u8, 'r' as u8, 'a' as u8, 'm' as u8]
    ||| name == seq!['s' as u8, 'o' as u8, 'u' as u8, 'r' as u8, 'c' as u8, 'e' as u8]
    ||| name == seq!['t' as u8, 'r' as u8, 'a' as u8, 'c' as u8, 'k' as u8]
    ||| name == seq!['w' as u8, 'b' as u8, 'r' as u8]
}

/// Whether `tag_name` is one of the HTML void elements, which are rendered
/// as `<name attrs/>` with no closing tag and no content.
pub fn is_void_element(tag_name: &[u8]) -> (r: bool)
    ensures
        r == is_void_spec(tag_name@),
{
    let n = tag_name.len();
    let r: bool = if n == 2 {
        (tag_name[0] == 'b' as u8 && tag_name[1] == 'r' as u8) || (tag_name[0] == 'h' as u8
            && tag_name[1] == 'r' as u8)
    } else if n == 3 {
        (tag_name[0] == 'c' as u8 && tag_name[1] == 'o' as u8 && tag_name[2] == 'l' as u8) || (
        tag_name[0] == 'i' as u8 && tag_name[1] == 'm' as u8 && tag_name[2] == 'g' as u8) || (
        tag_name[0] == 'w' as u8 && tag_name[1] == 'b' as u8 && tag_name[2] == 'r' as u8)
    } else if n == 4 {
        (tag_name[0] == 'a' as u8 && tag_name[1] == 'r' as u8 && tag_name[2] == 'e' as u8
            && tag_name[3] == 'a' as u8) || (tag_name[0] == 'b' as u8 && tag_name[1] == 'a' as u8
            && tag_name[2] == 's' as u8 && tag_name[3] == 'e' as u8) || (tag_name[0] == 'l' as u8
            && tag_name[1] == 'i' as u8 && tag_name[2] == 'n' as u8 && tag_name[3] == 'k' as u8)
            || (tag_name[0] == 'm' as u8 && tag_name[1] == 'e' as u8 && tag_name[2] == 't' as u8
            && tag_name[3] == 'a' as u8)
    } else if n == 5 {
        (tag_name[0] == 'e' as u8 && tag_name[1] == 'm' as u8 && tag_name[2] == 'b' as u8
            && tag_name[3] == 'e' as u8 && tag_name[4] == 'd' as u8) || (tag_name[0] == 'i' as u8
            && tag_name[1] == 'n' as u8 && tag_name[2] == 'p' as u8 && tag_name[3] == 'u' as u8
            && tag_name[4] == 't' as u8) || (tag_name[0] == 'p' as u8 && tag_name[1] == 'a' as u8
            && tag_name[2] == 'r' as u8 && tag_name[3] == 'a' as u8 && tag_name[4] == 'm' as u8)
            || (tag_name[0] == 't' as u8 && tag_name[1] == 'r' as u8 && tag_name[2] == 'a' as u8
            && tag_name[3] == 'c' as u8 && tag_name[4] == 'k' as u8)
    } else if n == 6 {
        tag_name[0] == 's' as u8 && tag_name[1] == 'o' as u8 && tag_name[2] == 'u' as u8
            && tag_name[3] == 'r' as u8 && tag_name[4] == 'c' as u8 && tag_name[5] == 'e' as u8
    } else {
        false
    };
    proof {
        if r {
            assert(is_void_spec(tag_name@)) by {
                if tag_name@.len() == 2 {
                    if tag_name@[0] == 'b' as u8 {
                        assert(tag_name@ =~= seq!['b' as u8, 'r' as u8]);
                    } else {
                        assert(tag_name@ =~= seq!['h' as u8, 'r' as u8]);
                    }
                } else if tag_name@.len() == 3 {
                    if tag_name@[0] == 'c' as u8 {
                        assert(tag_name@ =~= seq!['c' as u8, 'o' as u8, 'l' as u8]);
                    } else if tag_name@[0] == 'i' as u8 {
                        assert(tag_name@ =~= seq!['i' as u8, 'm' as u8, 'g' as u8]);
                    } else {
                        assert(tag_name@ =~= seq!['w' as u8, 'b' as u8, 'r' as u8]);
                    }
                } else if tag_name@.len() == 4 {
                    if tag_name@[0] == 'a' as u8 {
                        assert(tag_name@ =~= seq!['a' as u8, 'r' as u8, 'e' as u8, 'a' as u8]);
                    } else if tag_name@[0] == 'b' as u8 {
                        assert(tag_name@ =~= seq!['b' as u8, 'a' as u8, 's' as u8, 'e' as u8]);
                    } else if tag_name@[0] == 'l' as u8 {
                        assert(tag_name@ =~= seq!['l' as u8, 'i' as u8, 'n' as u8, 'k' as u8]);
                    } else {
                        assert(tag_name@ =~= seq!['m' as u8, 'e' as u8, 't' as u8, 'a' as u8]);
                    }
                } else if tag_name@.len() == 5 {
                    if tag_name@[0] == 'e' as u8 {
                        assert(tag_name@ =~= seq!['e' as u8, 'm' as u8, 'b' as u8, 'e' as u8, 'd' as u8]);
                    } else if tag_name@[0] == 'i' as u8 {
                        assert(tag_name@ =~= seq!['i' as u8, 'n' as u8, 'p' as u8, 'u' as u8, 't' as u8]);
                    } else if tag_name@[0] == 'p' as u8 {
                        assert(tag_name@ =~= seq!['p' as u8, 'a' as u8, 'r' as u8, 'a' as u8, 'm' as u8]);
                    } else {
                        assert(tag_name@ =~= seq!['t' as u8, 'r' as u8, 'a' as u8, 'c' as u8, 'k' as u8]);
                    }
                } else {
                    assert(tag_name@ =~= seq!['s' as u8, 'o' as u8, 'u' as u8, 'r' as u8, 'c' as u8, 'e' as u8]);
                }
            }
        }
    }
    r
}

} // verus!
