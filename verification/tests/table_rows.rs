use horb::error::InputError;
use horb::rows::{baryon_line_fields, rc_line_fields};

fn bad_row(r: Result<Option<Vec<String>>, InputError>) -> usize {
    match r {
        Err(InputError::BadRow { line_index }) => line_index,
        other => panic!("expected a bad row, got {:?}", other),
    }
}

#[test]
fn rc_lines() {
    assert_eq!(rc_line_fields(0, "R_kpc,Vobs_kms,eV_kms").unwrap(), None);
    assert_eq!(rc_line_fields(0, "  R_kpc , Vobs").unwrap(), None);
    assert_eq!(rc_line_fields(3, "   ").unwrap(), None);
    assert_eq!(
        rc_line_fields(1, " 1.0, 200 , 5 ").unwrap(),
        Some(vec!["1.0".to_string(), "200".to_string(), "5".to_string()])
    );
    assert_eq!(
        rc_line_fields(4, "8.0,230,4,extra").unwrap(),
        Some(vec!["8.0".to_string(), "230".to_string(), "4".to_string(), "extra".to_string()])
    );
    // The header is only skipped on the first line.
    assert_eq!(
        rc_line_fields(1, "R_kpc,1,2").unwrap(),
        Some(vec!["R_kpc".to_string(), "1".to_string(), "2".to_string()])
    );
    assert_eq!(bad_row(rc_line_fields(2, "1,2")), 2);
    assert_eq!(bad_row(rc_line_fields(0, "R_k,1")), 0);
}

#[test]
fn baryon_lines() {
    assert_eq!(baryon_line_fields(0, "label,kind,mass_msun,scale_kpc").unwrap(), None);
    assert_eq!(baryon_line_fields(5, "# bulge from Sofue").unwrap(), None);
    assert_eq!(baryon_line_fields(5, "").unwrap(), None);
    assert_eq!(
        baryon_line_fields(1, "stellar disk, disk, 3.41e10, 3.19").unwrap(),
        Some(vec![
            "stellar disk".to_string(),
            "disk".to_string(),
            "3.41e10".to_string(),
            "3.19".to_string()
        ])
    );
    assert_eq!(bad_row(baryon_line_fields(1, "label,kind,mass_msun,scale_kpc,x")), 1);
    assert_eq!(bad_row(baryon_line_fields(2, "a,b,c")), 2);
    // The header is only skipped on the first line.
    assert_eq!(
        baryon_line_fields(1, "label,kind,1,2").unwrap(),
        Some(vec!["label".to_string(), "kind".to_string(), "1".to_string(), "2".to_string()])
    );
}
