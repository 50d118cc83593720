//! Text recognition decoding: the checks on the recognizer's output shape, and CTC
//! decoding of the best class of each time step into text.
use vstd::prelude::*;

use crate::error::{Error, ErrorKind};
use crate::ocr::REC_BLANK_INDEX;
use crate::text::{decimal, owned, push_decimal, push_str};

verus! {

/// What is wrong with a recognizer output of `len` scores for `timestep_count` steps of
/// `class_count` classes and a dictionary of `dict_len` entries, or `None`.
pub open spec fn recognition_shape_problem(
    len: nat,
    timestep_count: nat,
    class_count: nat,
    dict_len: nat,
) -> Option<Seq<char>> {
    if timestep_count == 0 || class_count == 0 {
        Some("recognition output dimensions cannot be empty"@)
    } else if len != timestep_count * class_count {
        Some(
            "recognition output size mismatch: expected "@ + decimal(timestep_count * class_count)
                + ", got "@ + decimal(len),
        )
    } else if dict_len + 1 > class_count {
        Some(
            "recognition dictionary has "@ + decimal(dict_len) + " entries but output only has "@
                + decimal(class_count) + " classes"@,
        )
    } else {
        None
    }
}

/// Checks the shape of a recognizer output before it is decoded.
pub fn validate_recognition_shape(
    len: usize,
    timestep_count: usize,
    class_count: usize,
    dict_len: usize,
) -> (r: Result<(), Error>)
    requires
        timestep_count * class_count <= usize::MAX,
        dict_len < usize::MAX,
    ensures
        match recognition_shape_problem(
            len as nat,
            timestep_count as nat,
            class_count as nat,
            dict_len as nat,
        ) {
            None => r is Ok,
            Some(m) => r matches Err(e) && e@ == (ErrorKind::Ocr, m),
        },
{
    if timestep_count == 0 || class_count == 0 {
        return Err(Error::from_str(ErrorKind::Ocr, "recognition output dimensions cannot be empty"));
    }
    let expected = timestep_count * class_count;
    if len != expected {
        let mut m = owned("recognition output size mismatch: expected ");
        push_decimal(&mut m, expected as u64);
        push_str(&mut m, ", got ");
        push_decimal(&mut m, len as u64);
        return Err(Error::new(ErrorKind::Ocr, m));
    }
    if dict_len + 1 > class_count {
        let mut m = owned("recognition dictionary has ");
        push_decimal(&mut m, dict_len as u64);
        push_str(&mut m, " entries but output only has ");
        push_decimal(&mut m, class_count as u64);
        push_str(&mut m, " classes");
        return Err(Error::new(ErrorKind::Ocr, m));
    }
    Ok(())
}

/// Whether time step `t` emits a token: its class is not blank, differs from the class
/// of the step before (blank before the first), and names a dictionary entry.
pub open spec fn emits(classes: Seq<usize>, t: int, dict_len: nat) -> bool {
    let previous = if t == 0 {
        REC_BLANK_INDEX
    } else {
        classes[t - 1]
    };
    classes[t] != REC_BLANK_INDEX && classes[t] != previous && classes[t] - 1 < dict_len
}

/// The text CTC decoding reads from the best class of each time step: the dictionary
/// entries of the emitting steps, in order.
pub open spec fn ctc_text(classes: Seq<usize>, dictionary: Seq<Seq<char>>) -> Seq<char>
    decreases classes.len(),
{
    if classes.len() == 0 {
        Seq::<char>::empty()
    } else {
        let t = classes.len() - 1;
        ctc_text(classes.drop_last(), dictionary) + if emits(classes, t, dictionary.len()) {
            dictionary[classes[t] - 1]
        } else {
            Seq::<char>::empty()
        }
    }
}

/// The time steps that emit a token, in order.
pub open spec fn ctc_steps(classes: Seq<usize>, dict_len: nat) -> Seq<usize>
    decreases classes.len(),
{
    if classes.len() == 0 {
        Seq::<usize>::empty()
    } else {
        let t = classes.len() - 1;
        if emits(classes, t, dict_len) {
            ctc_steps(classes.drop_last(), dict_len).push(t as usize)
        } else {
            ctc_steps(classes.drop_last(), dict_len)
        }
    }
}

/// Decoded text and the time steps whose scores make up its confidence.
#[derive(Debug)]
pub struct CtcDecoding {
    pub text: String,
    pub steps: Vec<usize>,
}

/// CTC-decodes the best class of each time step: blanks and repeats of the previous
/// step's class are dropped, and classes outside the dictionary emit nothing.
pub fn decode_ctc(classes: &Vec<usize>, dictionary: &Vec<String>) -> (r: CtcDecoding)
    ensures
        r.text@ == ctc_text(classes@, dictionary@.map_values(|s: String| s@)),
        r.steps@ == ctc_steps(classes@, dictionary@.len()),
{
    let ghost dict = dictionary@.map_values(|s: String| s@);
    let mut text = String::new();
    let mut steps: Vec<usize> = Vec::new();
    let mut previous = REC_BLANK_INDEX;
    let mut t: usize = 0;
    while t < classes.len()
        invariant
            t <= classes@.len(),
            dict == dictionary@.map_values(|s: String| s@),
            dict.len() == dictionary@.len(),
            t > 0 ==> previous == classes@[t - 1],
            t == 0 ==> previous == REC_BLANK_INDEX,
            text@ == ctc_text(classes@.take(t as int), dict),
            steps@ == ctc_steps(classes@.take(t as int), dictionary@.len()),
        decreases classes.len() - t,
    {
        let class_index = classes[t];
        let ghost pre = classes@.take(t as int);
        let ghost next = classes@.take(t + 1);
        proof {
            assert(next.drop_last() =~= pre);
            assert(next[t as int] == class_index);
            if t > 0 {
                assert(next[t - 1] == classes@[t - 1]);
            }
        }
        if class_index != REC_BLANK_INDEX && class_index != previous && class_index - 1
            < dictionary.len() {
            let token = &dictionary[class_index - 1];
            proof {
                assert(dict[class_index - 1] == token@);
            }
            push_str(&mut text, token.as_str());
            steps.push(t);
        }
        previous = class_index;
        t += 1;
    }
    proof {
        assert(classes@.take(classes@.len() as int) =~= classes@);
    }
    CtcDecoding { text, steps }
}


/// The orientation labels of the classifier's classes.
pub const CLS_LABEL_UPRIGHT: &'static str = "0";

/// The label of text turned upside down.
pub const CLS_LABEL_UPSIDE_DOWN: &'static str = "180";

/// The label of the classifier's best class `label_index` among `class_count` scores:
/// `0` or `180`; no scores, or a class without a label, is an error.
pub fn classification_label(class_count: usize, label_index: usize) -> (r: Result<&'static str, Error>)
    ensures
        class_count == 0 ==> (r matches Err(e) && e@ == (
            ErrorKind::Ocr,
            "classification output dimensions cannot be empty"@,
        )),
        class_count > 0 && label_index == 0 ==> (r matches Ok(l) && l@ == CLS_LABEL_UPRIGHT@),
        class_count > 0 && label_index == 1 ==> (r matches Ok(l) && l@ == CLS_LABEL_UPSIDE_DOWN@),
        class_count > 0 && label_index > 1 ==> (r matches Err(e) && e@ == (
            ErrorKind::Ocr,
            "unknown classification label index "@ + decimal(label_index as nat),
        )),
{
    if class_count == 0 {
        return Err(
            Error::from_str(ErrorKind::Ocr, "classification output dimensions cannot be empty"),
        );
    }
    if label_index == 0 {
        Ok(CLS_LABEL_UPRIGHT)
    } else if label_index == 1 {
        Ok(CLS_LABEL_UPSIDE_DOWN)
    } else {
        let mut m = owned("unknown classification label index ");
        push_decimal(&mut m, label_index as u64);
        Err(Error::new(ErrorKind::Ocr, m))
    }
}

} // verus!
