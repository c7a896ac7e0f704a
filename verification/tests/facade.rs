use netcdf::dimension::Dimension;
use netcdf::error::Error;
use netcdf::numeric::Numeric;
use netcdf::variable::Variable;
use std::collections::BTreeMap;
use std::sync::Mutex;

/// What the backend of these tests keeps: the cells that were written, by
/// variable and index, and how often each variable was asked for anything.
struct Store {
    cells: BTreeMap<(i32, Vec<usize>), i64>,
    calls: BTreeMap<i32, usize>,
}

static STORE: Mutex<Store> = Mutex::new(Store { cells: BTreeMap::new(), calls: BTreeMap::new() });

/// The status with which the backend of these tests refuses a variable
/// whose group is negative.
const BROKEN: i32 = -33;

/// The value of a cell that nothing was written to.
const FILL: i64 = -1;

#[derive(Debug, Clone, Copy, Default, PartialEq, Eq)]
struct Cell(i64);

fn touched(start: &[usize], count: &[usize], stride: Option<&[isize]>) -> Vec<Vec<usize>> {
    let mut all = vec![Vec::new()];
    for k in 0..start.len() {
        let mut next = Vec::new();
        for head in &all {
            for step in 0..count[k] {
                let by = stride.map_or(1, |s| s[k]);
                let at = start[k] as isize + step as isize * by;
                let mut index = head.clone();
                index.push(at as usize);
                next.push(index);
            }
        }
        all = next;
    }
    all
}

fn enter(variable: &Variable) -> Result<(), Error> {
    *STORE.lock().unwrap().calls.entry(variable.varid).or_insert(0) += 1;
    if variable.ncid < 0 {
        Err(Error::Netcdf(BROKEN))
    } else {
        Ok(())
    }
}

fn read(variable: &Variable, at: &[Vec<usize>], values: &mut [Cell]) {
    let store = STORE.lock().unwrap();
    for (slot, index) in values.iter_mut().zip(at) {
        *slot = Cell(*store.cells.get(&(variable.varid, index.clone())).unwrap_or(&FILL));
    }
}

fn write(variable: &mut Variable, at: &[Vec<usize>], values: &[Cell]) {
    let mut store = STORE.lock().unwrap();
    for (value, index) in values.iter().zip(at) {
        store.cells.insert((variable.varid, index.clone()), value.0);
        for (d, &i) in variable.dimensions.iter_mut().zip(index) {
            if d.unlimited && i >= d.len {
                d.len = i + 1;
            }
        }
    }
}

impl Numeric for Cell {
    const NCTYPE: i32 = 10;

    fn single_value_from_variable(variable: &Variable, indices: &[usize]) -> Result<Self, Error> {
        enter(variable)?;
        let mut one = [Cell(0)];
        read(variable, &[indices.to_vec()], &mut one);
        Ok(one[0])
    }

    fn variable_to_ptr(
        variable: &Variable,
        indices: &[usize],
        slice_len: &[usize],
        values: &mut [Self],
    ) -> Result<(), Error> {
        enter(variable)?;
        let at = touched(indices, slice_len, None);
        assert_eq!(at.len(), values.len());
        read(variable, &at, values);
        Ok(())
    }

    fn put_value_at(variable: &mut Variable, indices: &[usize], value: Self) -> Result<(), Error> {
        enter(variable)?;
        write(variable, &[indices.to_vec()], &[value]);
        Ok(())
    }

    fn put_values_at(
        variable: &mut Variable,
        indices: &[usize],
        slice_len: &[usize],
        values: &[Self],
    ) -> Result<(), Error> {
        enter(variable)?;
        let at = touched(indices, slice_len, None);
        assert_eq!(at.len(), values.len());
        write(variable, &at, values);
        Ok(())
    }

    fn get_values_strided(
        variable: &Variable,
        indices: &[usize],
        slice_len: &[usize],
        strides: &[isize],
        values: &mut [Self],
    ) -> Result<(), Error> {
        enter(variable)?;
        let at = touched(indices, slice_len, Some(strides));
        assert_eq!(at.len(), values.len());
        read(variable, &at, values);
        Ok(())
    }

    fn put_values_strided(
        variable: &mut Variable,
        indices: &[usize],
        slice_len: &[usize],
        strides: &[isize],
        values: &[Self],
    ) -> Result<(), Error> {
        enter(variable)?;
        let at = touched(indices, slice_len, Some(strides));
        assert_eq!(at.len(), values.len());
        write(variable, &at, values);
        Ok(())
    }
}

fn calls(variable: &Variable) -> usize {
    *STORE.lock().unwrap().calls.get(&variable.varid).unwrap_or(&0)
}

fn snapshot(variable: &Variable) -> Vec<(Vec<usize>, i64)> {
    let store = STORE.lock().unwrap();
    store
        .cells
        .iter()
        .filter(|((id, _), _)| *id == variable.varid)
        .map(|((_, index), value)| (index.clone(), *value))
        .collect()
}

fn cells(values: &[i64]) -> Vec<Cell> {
    values.iter().map(|&x| Cell(x)).collect()
}

fn time_3_4(varid: i32) -> Variable {
    Variable::new(
        String::from("temperature"),
        vec![Dimension::unlimited(0, 0), Dimension::fixed(3, 1), Dimension::fixed(4, 2)],
        10,
        1,
        varid,
    )
}

fn grid(varid: i32) -> Variable {
    let mut v = Variable::new(
        String::from("grid"),
        vec![Dimension::fixed(4, 0), Dimension::fixed(5, 1)],
        10,
        1,
        varid,
    );
    let all: Vec<Cell> = (0..20).map(Cell).collect();
    v.put_values(&all, None, None).unwrap();
    v
}

#[test]
fn value_reads_one_cell() {
    let v = grid(101);
    assert_eq!(v.value::<Cell>(None), Ok(Cell(0)));
    assert_eq!(v.value::<Cell>(Some(&[0, 0])), Ok(Cell(0)));
    assert_eq!(v.value::<Cell>(Some(&[2, 3])), Ok(Cell(13)));
    assert_eq!(v.value::<Cell>(Some(&[3, 4])), Ok(Cell(19)));
}

#[test]
fn value_refuses_without_asking_the_backend() {
    let v = grid(102);
    let before = calls(&v);
    assert_eq!(v.value::<Cell>(Some(&[2])), Err(Error::IndexLen));
    assert_eq!(v.value::<Cell>(Some(&[5, 0])), Err(Error::IndexMismatch));
    assert_eq!(calls(&v), before);
    assert_eq!(v.value::<Cell>(Some(&[4, 5])), Ok(Cell(FILL)));
    assert_eq!(calls(&v), before + 1);
}

#[test]
fn backend_failure_passes_through() {
    let mut v = grid(103);
    v.ncid = -1;
    let mut buffer = cells(&[7; 20]);
    assert_eq!(v.value::<Cell>(None), Err(Error::Netcdf(BROKEN)));
    assert_eq!(v.values_to(&mut buffer, None, None), Err(Error::Netcdf(BROKEN)));
    assert_eq!(v.values_strided_to(&mut buffer, None, None, &[1, 1]), Err(Error::Netcdf(BROKEN)));
    assert_eq!(v.put_value(Cell(1), None), Err(Error::Netcdf(BROKEN)));
    assert_eq!(v.put_values(&buffer, None, None), Err(Error::Netcdf(BROKEN)));
    assert_eq!(v.put_values_strided(&buffer, None, None, &[1, 1]), Err(Error::Netcdf(BROKEN)));
    assert_eq!(v.values::<Cell>(None, None).map(|a| a.shape()), Err(Error::Netcdf(BROKEN)));
    assert_eq!(buffer, cells(&[7; 20]));
}

#[test]
fn values_to_fills_the_buffer() {
    let v = grid(104);
    let mut whole = cells(&[0; 20]);
    assert_eq!(v.values_to(&mut whole, None, None), Ok(()));
    assert_eq!(whole, (0..20).map(Cell).collect::<Vec<_>>());
    let mut part = cells(&[0; 6]);
    assert_eq!(v.values_to(&mut part, Some(&[1, 2]), Some(&[2, 3])), Ok(()));
    assert_eq!(part, cells(&[7, 8, 9, 12, 13, 14]));
    let mut rest = cells(&[0; 4]);
    assert_eq!(v.values_to(&mut rest, Some(&[2, 3]), None), Ok(()));
    assert_eq!(rest, cells(&[13, 14, 18, 19]));
}

#[test]
fn values_to_refuses_and_leaves_the_buffer() {
    let v = grid(105);
    let before = calls(&v);
    let mut buffer = cells(&[7; 7]);
    assert_eq!(
        v.values_to(&mut buffer, None, Some(&[2, 4])),
        Err(Error::BufferLen(7, 8))
    );
    assert_eq!(v.values_to(&mut buffer, None, None), Err(Error::BufferLen(7, 20)));
    assert_eq!(v.values_to(&mut buffer, Some(&[0, 0]), Some(&[7, 1])), Err(Error::SliceMismatch));
    assert_eq!(v.values_to(&mut buffer, Some(&[0, 9]), Some(&[7, 1])), Err(Error::IndexMismatch));
    assert_eq!(v.values_to(&mut buffer, None, Some(&[2, 0])), Err(Error::ZeroSlice));
    assert_eq!(buffer, cells(&[7; 7]));
    assert_eq!(calls(&v), before);
}

#[test]
fn put_values_grows_the_unlimited_dimension() {
    let mut v = time_3_4(106);
    let first: Vec<Cell> = (0..24).map(Cell).collect();
    assert_eq!(v.put_values(&first, None, None), Ok(()));
    assert_eq!(v.dimensions[0].len, 2);
    let second: Vec<Cell> = (24..48).map(Cell).collect();
    assert_eq!(v.put_values(&second, Some(&[2, 0, 0]), None), Ok(()));
    assert_eq!(v.dimensions[0].len, 4);
    let mut all = cells(&[0; 48]);
    assert_eq!(v.values_to(&mut all, None, None), Ok(()));
    assert_eq!(all, (0..48).map(Cell).collect::<Vec<_>>());
    assert_eq!(v.value::<Cell>(Some(&[3, 2, 3])), Ok(Cell(47)));
}

#[test]
fn put_values_below_the_unlimited_length_runs_to_the_end() {
    let mut v = time_3_4(119);
    let first: Vec<Cell> = (0..24).map(Cell).collect();
    assert_eq!(v.put_values(&first, None, None), Ok(()));
    assert_eq!(v.dimensions[0].len, 2);
    let before = calls(&v);
    let more: Vec<Cell> = (0..36).map(Cell).collect();
    assert_eq!(v.put_values(&more, None, None), Err(Error::BufferLen(36, 24)));
    assert_eq!(v.put_values(&more[..12], None, None), Err(Error::BufferLen(12, 24)));
    assert_eq!(calls(&v), before);
    assert_eq!(v.put_values(&more, None, Some(&[3, 3, 4])), Ok(()));
    assert_eq!(v.dimensions[0].len, 3);
    assert_eq!(v.put_values(&more, None, None), Ok(()));
    assert_eq!(v.put_values(&more[..12], Some(&[3, 0, 0]), None), Ok(()));
    assert_eq!(v.dimensions[0].len, 4);
}

#[test]
fn put_values_refuses_and_leaves_the_variable() {
    let mut v = time_3_4(107);
    let before = calls(&v);
    let seven = cells(&[1; 7]);
    assert_eq!(v.put_values(&seven, None, None), Err(Error::BufferLen(7, 0)));
    assert_eq!(v.put_values(&seven, None, Some(&[1, 2, 4])), Err(Error::BufferLen(7, 8)));
    assert_eq!(v.put_values(&seven, Some(&[0, 0, 0]), Some(&[7, 1])), Err(Error::SliceLen));
    assert_eq!(v.put_values(&seven, Some(&[0, 0, 5]), None), Err(Error::IndexMismatch));
    assert_eq!(v.put_values(&[] as &[Cell], None, None), Err(Error::ZeroSlice));
    assert_eq!(v.put_value(Cell(1), Some(&[0, 3, 5])), Err(Error::IndexMismatch));
    assert_eq!(v.put_value(Cell(1), Some(&[0])), Err(Error::IndexLen));
    assert_eq!(calls(&v), before);
    assert_eq!(v.dimensions[0].len, 0);
    assert_eq!(v.name(), "temperature");
    assert!(snapshot(&v).is_empty());
}

#[test]
fn put_value_writes_one_cell() {
    let mut v = time_3_4(108);
    assert_eq!(v.put_value(Cell(5), None), Ok(()));
    assert_eq!(v.put_value(Cell(6), Some(&[4, 2, 3])), Ok(()));
    assert_eq!(v.dimensions[0].len, 5);
    assert_eq!(snapshot(&v), vec![(vec![0, 0, 0], 5), (vec![4, 2, 3], 6)]);
    assert_eq!(v.value::<Cell>(Some(&[4, 2, 3])), Ok(Cell(6)));
    assert_eq!(v.value::<Cell>(Some(&[4, 2, 2])), Ok(Cell(FILL)));
}

#[test]
fn read_then_write_leaves_the_store_unchanged() {
    let mut v = grid(109);
    let before = snapshot(&v);
    let regions: Vec<(Vec<usize>, Vec<usize>)> = vec![
        (vec![0, 0], vec![4, 5]),
        (vec![1, 2], vec![2, 3]),
        (vec![3, 4], vec![1, 1]),
        (vec![0, 4], vec![4, 1]),
    ];
    for (start, extent) in regions {
        let mut buffer = cells(&vec![0; extent.iter().product()]);
        assert_eq!(v.values_to(&mut buffer, Some(&start), Some(&extent)), Ok(()));
        assert_eq!(v.put_values(&buffer, Some(&start), Some(&extent)), Ok(()));
        assert_eq!(snapshot(&v), before);
    }
}

#[test]
fn values_strided_to_reports_the_count() {
    let v = grid(110);
    let mut buffer = cells(&[7; 8]);
    assert_eq!(v.values_strided_to(&mut buffer, None, None, &[2, 3]), Ok(4));
    assert_eq!(buffer, cells(&[0, 3, 10, 13, 7, 7, 7, 7]));
    let mut exact = cells(&[7; 3]);
    assert_eq!(v.values_strided_to(&mut exact, Some(&[3, 4]), Some(&[3, 1]), &[-1, 0]), Ok(3));
    assert_eq!(exact, cells(&[19, 14, 9]));
}

#[test]
fn values_strided_to_refuses_and_leaves_the_buffer() {
    let v = grid(111);
    let before = calls(&v);
    let mut buffer = cells(&[7; 7]);
    assert_eq!(
        v.values_strided_to(&mut buffer, None, Some(&[2, 4]), &[1, 1]),
        Err(Error::InsufficientBuffer)
    );
    assert_eq!(v.values_strided_to(&mut buffer, None, None, &[1]), Err(Error::StrideError));
    assert_eq!(
        v.values_strided_to(&mut buffer, None, Some(&[2, 2]), &[0, 1]),
        Err(Error::StrideError)
    );
    assert_eq!(
        v.values_strided_to(&mut buffer, None, Some(&[2, 0]), &[1, 1]),
        Err(Error::ZeroSlice)
    );
    assert_eq!(
        v.values_strided_to(&mut buffer, None, Some(&[2, 3]), &[1, 3]),
        Err(Error::IndexMismatch)
    );
    assert_eq!(buffer, cells(&[7; 7]));
    assert_eq!(calls(&v), before);
}

#[test]
fn put_values_strided_reports_the_count() {
    let mut v = time_3_4(112);
    let values = cells(&[1, 2, 3, 4, 5, 6, 7, 8]);
    assert_eq!(
        v.put_values_strided(&values, Some(&[1, 0, 0]), Some(&[3, 1, 2]), &[2, 0, 3]),
        Ok(6)
    );
    assert_eq!(v.dimensions[0].len, 6);
    assert_eq!(
        snapshot(&v),
        vec![
            (vec![1, 0, 0], 1),
            (vec![1, 0, 3], 2),
            (vec![3, 0, 0], 3),
            (vec![3, 0, 3], 4),
            (vec![5, 0, 0], 5),
            (vec![5, 0, 3], 6),
        ]
    );
}

#[test]
fn put_values_strided_refuses_and_leaves_the_variable() {
    let mut v = time_3_4(113);
    let before = calls(&v);
    let values = cells(&[1; 7]);
    assert_eq!(
        v.put_values_strided(&values, None, Some(&[2, 1, 4]), &[1, 1, 1]),
        Err(Error::InsufficientBuffer)
    );
    assert_eq!(v.put_values_strided(&values, None, None, &[1, 1]), Err(Error::IndexMismatch));
    assert_eq!(
        v.put_values_strided(&values, None, Some(&[2, 1]), &[1, 1, 1]),
        Err(Error::SliceMismatch)
    );
    assert_eq!(
        v.put_values_strided(&values, None, Some(&[2, 2, 1]), &[1, 0, 1]),
        Err(Error::StrideError)
    );
    assert_eq!(
        v.put_values_strided(&values, None, Some(&[2, 1, 4]), &[1, 1, 2]),
        Err(Error::IndexMismatch)
    );
    assert_eq!(v.put_values_strided(&values, None, None, &[1, 1, 1]), Err(Error::ZeroSlice));
    assert_eq!(calls(&v), before);
    assert_eq!(v.dimensions[0].len, 0);
    assert!(snapshot(&v).is_empty());
}

#[test]
fn values_come_in_the_shape_of_the_region() {
    let v = grid(114);
    let whole = v.values::<Cell>(None, None).unwrap();
    assert_eq!(whole.shape(), vec![4, 5]);
    assert_eq!(whole.into_raw_vec(), (0..20).map(Cell).collect::<Vec<_>>());
    let part = v.values::<Cell>(Some(&[1, 2]), Some(&[3, 2])).unwrap();
    assert_eq!(part.shape(), vec![3, 2]);
    assert_eq!(part.into_raw_vec(), cells(&[7, 8, 12, 13, 17, 18]));
}

#[test]
fn values_of_a_variable_without_dimensions_is_one_cell() {
    let mut v = Variable::new(String::from("scalar"), vec![], 10, 1, 118);
    v.put_value(Cell(42), None).unwrap();
    let one = v.values::<Cell>(None, None).unwrap();
    assert_eq!(one.shape(), Vec::<usize>::new());
    assert_eq!(one.into_raw_vec(), cells(&[42]));
}

#[test]
fn values_refuses_without_asking_the_backend() {
    let v = grid(115);
    let before = calls(&v);
    let shape = |r: Result<netcdf::array::Array<Cell>, Error>| r.map(|a| a.shape());
    assert_eq!(shape(v.values(Some(&[1, 2]), None)), Err(Error::BufferLen(20, 9)));
    assert_eq!(shape(v.values(None, Some(&[5, 5]))), Err(Error::SliceMismatch));
    assert_eq!(shape(v.values(None, Some(&[usize::MAX, 2]))), Err(Error::Overflow));
    assert_eq!(shape(v.values(None, Some(&[4]))), Err(Error::SliceLen));
    assert_eq!(shape(v.values(Some(&[4]), None)), Err(Error::IndexLen));
    assert_eq!(calls(&v), before);
}

#[test]
fn values_of_more_cells_than_an_array_holds_is_overflow() {
    let v = Variable::new(
        String::from("vast"),
        vec![Dimension::fixed(usize::MAX / 2 + 1, 0)],
        10,
        1,
        116,
    );
    assert_eq!(v.values::<Cell>(None, None).map(|a| a.shape()), Err(Error::Overflow));
    assert_eq!(calls(&v), 0);
}

#[test]
fn element_type_is_checked_against_the_declaration() {
    let mut v = grid(117);
    assert_eq!(v.check_type::<Cell>(), Ok(()));
    v.vartype = 4;
    assert_eq!(v.vartype(), 4);
    assert_eq!(v.check_type::<Cell>(), Err(Error::TypeMismatch));
}
