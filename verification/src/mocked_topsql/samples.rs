//! The statement and the plan that mocked events tell of.
use vstd::prelude::*;

verus! {

/// The statement of every mocked event.
pub const SQL_CONSTANT: &'static str = "SELECT
  `tbl_test_001`.`column0`,
  `tbl_test_001`.`column1`,
  `tbl_test_001`.`column2`,
  `tbl_test_001`.`column3`,
  `tbl_test_001`.`column4`,
  `tbl_test_001`.`column5`,
  `tbl_test_001`.`column6`,
  `tbl_test_001`.`column7`,
  `tbl_test_001`.`column8`,
  `tbl_test_001`.`column9`,
  `tbl_test_001`.`column10`,
  `tbl_test_001`.`column11`,
  `tbl_test_001`.`column12`,
  `tbl_test_001`.`column13`,
  `tbl_test_001`.`column14`,
  `tbl_test_001`.`column15`,
  `tbl_test_001`.`column16`,
  `tbl_test_001`.`column17`,
  `tbl_test_001`.`column18`,
  `tbl_test_001`.`column19`,
  `tbl_test_001`.`column20`,
  `tbl_test_001`.`column21`,
  `tbl_test_001`.`column22`,
  `tbl_test_001`.`column23`,
  `tbl_test_001`.`column24`,
  `tbl_test_001`.`column25`,
  `tbl_test_001`.`column26`,
  `tbl_test_001`.`column27`,
  `tbl_test_001`.`column28`,
  `tbl_test_001`.`column29`,
  `tbl_test_001`.`column30`,
  `tbl_test_001`.`column31`,
  `tbl_test_001`.`column32`,
  `tbl_test_001`.`column33`,
  `tbl_test_001`.`column34`,
  `tbl_test_001`.`column35`,
  `tbl_test_001`.`column36`,
  `tbl_test_001`.`column37`,
  `tbl_test_001`.`column38`,
  `tbl_test_001`.`column39`,
  `tbl_test_001`.`column40`,
  `tbl_test_001`.`column41`,
  `tbl_test_001`.`column42`,
  `tbl_test_001`.`column43`,
  `tbl_test_001`.`column44`,
  `tbl_test_001`.`column45`,
  `tbl_test_001`.`column46`,
  `tbl_test_001`.`column47`,
  `tbl_test_001`.`column48`,
  `tbl_test_001`.`column49`,
  `tbl_test_001`.`column50`,
  `tbl_test_001`.`column51`,
  `tbl_test_001`.`column52`,
  `tbl_test_001`.`column53`,
  `tbl_test_001`.`column54`,
  `tbl_test_001`.`column55`,
  `tbl_test_001`.`column56`,
  `tbl_test_001`.`column57`,
  `tbl_test_001`.`column58`,
  `tbl_test_001`.`column59`,
  `tbl_test_001`.`column60`,
  `tbl_test_001`.`column61`,
  `tbl_test_001`.`column62`,
  `tbl_test_001`.`column63`,
  `tbl_test_001`.`column64`,
  `tbl_test_001`.`column65`,
  `tbl_test_001`.`column66`
FROM
  `tbl_test_001`
WHERE
  `column0` = ?
  AND `column1` = ?
LIMIT
  ?";

/// The plan of every mocked event.
pub const PLAN_CONSTANT: &'static str = "	Projection   	root	db_test_0001.tbl_test_001.column0, db_test_0001.tbl_test_001.column1, db_test_0001.tbl_test_001.column2, db_test_0001.tbl_test_001.column3, db_test_0001.tbl_test_001.column4, db_test_0001.tbl_test_001.column5, db_test_0001.tbl_test_001.column6, db_test_0001.tbl_test_001.column7, db_test_0001.tbl_test_001.column8, db_test_0001.tbl_test_001.column9, db_test_0001.tbl_test_001.column10, db_test_0001.tbl_test_001.column11, db_test_0001.tbl_test_001.column12, db_test_0001.tbl_test_001.column13, db_test_0001.tbl_test_001.column14, db_test_0001.tbl_test_001.column15, db_test_0001.tbl_test_001.column16, db_test_0001.tbl_test_001.column17, db_test_0001.tbl_test_001.column18, db_test_0001.tbl_test_001.column19, db_test_0001.tbl_test_001.column20, db_test_0001.tbl_test_001.column21, db_test_0001.tbl_test_001.column22, db_test_0001.tbl_test_001.column23, db_test_0001.tbl_test_001.column24, db_test_0001.tbl_test_001.column25, db_test_0001.tbl_test_001.column26, db_test_0001.tbl_test_001.column27, db_test_0001.tbl_test_001.column28, db_test_0001.tbl_test_001.column29, db_test_0001.tbl_test_001.column30, db_test_0001.tbl_test_001.column31, db_test_0001.tbl_test_001.column32, db_test_0001.tbl_test_001.column33, db_test_0001.tbl_test_001.column34, db_test_0001.tbl_test_001.column35, db_test_0001.tbl_test_001.column36, db_test_0001.tbl_test_001.column37, db_test_0001.tbl_test_001.column38, db_test_0001.tbl_test_001.column39, db_test_0001.tbl_test_001.column40, db_test_0001.tbl_test_001.column41, db_test_0001.tbl_test_001.column42, db_test_0001.tbl_test_001.column43, db_test_0001.tbl_test_001.column44, db_test_0001.tbl_test_001.column45, db_test_0001.tbl_test_001.column46, db_test_0001.tbl_test_001.column47, db_test_0001.tbl_test_001.column48, db_test_0001.tbl_test_001.column49, db_test_0001.tbl_test_001.column50, db_test_0001.tbl_test_001.column51, db_test_0001.tbl_test_001.column52, db_test_0001.tbl_test_001.column53, db_test_0001.tbl_test_001.column54, db_test_0001.tbl_test_001.column55, db_test_0001.tbl_test_001.column56, db_test_0001.tbl_test_001.column57, db_test_0001.tbl_test_001.column58, db_test_0001.tbl_test_001.column59, db_test_0001.tbl_test_001.column60, db_test_0001.tbl_test_001.column61, db_test_0001.tbl_test_001.column62, db_test_0001.tbl_test_001.column63, db_test_0001.tbl_test_001.column64, db_test_0001.tbl_test_001.column65, db_test_0001.tbl_test_001.column66
	└─Limit      	root	
	  └─Point_Get	root	table:tbl_test_001, index:udx_column0_useridx_column1(column0, column1)";

} // verus!
