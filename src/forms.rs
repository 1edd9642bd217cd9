use vstd::prelude::*;
use crate::error::AppError;
use crate::models::{Claims, PatientData};

verus! {

/// The caller of a form request: the identity the form names, which must be
/// the authenticated one; a form that names none stands for the authenticated one.
pub fn resolve_form_user(form_user: &String, authenticated: &String) -> (r: Result<
    String,
    AppError,
>)
    ensures
        form_user@.len() == 0 ==> (r matches Ok(u) && u@ == authenticated@),
        form_user@.len() != 0 && form_user@ == authenticated@ ==> (r matches Ok(u) && u@
            == authenticated@),
        form_user@.len() != 0 && form_user@ != authenticated@ ==> (r matches Err(
            AppError::Unauthorized(_),
        )),
{
    if form_user.as_str().is_empty() {
        Ok(authenticated.clone())
    } else if *form_user != *authenticated {
        Err(AppError::Unauthorized("User pubkey mismatch".to_owned()))
    } else {
        Ok(authenticated.clone())
    }
}

/// The patient fields of a form: all four are required; the file reference
/// is filled in only once a file is pinned.
pub fn patient_form_data(
    name: String,
    blood_type: String,
    previous_report: String,
    ph_no: String,
) -> (r: Result<PatientData, AppError>)
    ensures
        (r is Ok) <==> (name@.len() != 0 && blood_type@.len() != 0 && previous_report@.len() != 0
            && ph_no@.len() != 0),
        r matches Ok(d) ==> d.name@ == name@ && d.blood_type@ == blood_type@ && d.previous_report@
            == previous_report@ && d.ph_no@ == ph_no@ && d.file is None,
        r is Err ==> r matches Err(AppError::BadRequest(_)),
{
    if name.as_str().is_empty() || blood_type.as_str().is_empty()
        || previous_report.as_str().is_empty() || ph_no.as_str().is_empty() {
        return Err(AppError::BadRequest("Missing required patient data fields".to_owned()));
    }
    Ok(PatientData { name, blood_type, previous_report, ph_no, file: None })
}

/// The seed identity text of an update form: required.
pub fn require_patient_seed(patient_seed: &String) -> (r: Result<(), AppError>)
    ensures
        r is Ok <==> patient_seed@.len() != 0,
        r is Err ==> r matches Err(AppError::BadRequest(_)),
{
    if patient_seed.as_str().is_empty() {
        Err(AppError::BadRequest("No patient_seed provided".to_owned()))
    } else {
        Ok(())
    }
}

/// The claims of a bearer credential for `public_key`, issued at `now`
/// (epoch seconds) and valid for `expires_in` seconds; `None` when the expiry
/// is not a representable time.
pub fn jwt_claims(public_key: &String, now: i64, expires_in: i64) -> (r: Option<Claims>)
    ensures
        r is Some <==> i64::MIN <= now + expires_in <= i64::MAX,
        r matches Some(c) ==> c.sub@ == public_key@ && c.exp == now + expires_in,
{
    let exp = now.checked_add(expires_in)?;
    Some(Claims { sub: public_key.clone(), exp })
}

} // verus!
