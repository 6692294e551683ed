use vstd::prelude::*;

verus! {

/// Pixel layouts a capturer can hand out.
#[derive(Clone, Copy, Debug, PartialEq, Eq, Structural)]
pub enum Pixfmt {
    BGRA,
    RGBA,
    RGB565LE,
    I420,
    NV12,
    I444,
}

/// A borrowed frame of pixels with its geometry and row strides.
#[derive(Debug)]
pub struct PixelBuffer<'a> {
    data: &'a [u8],
    pixfmt: Pixfmt,
    width: usize,
    height: usize,
    stride: Vec<usize>,
}

impl<'a> PixelBuffer<'a> {
    /// The pixel bytes.
    pub closed spec fn data_view(&self) -> Seq<u8> {
        self.data@
    }

    /// The pixel layout.
    pub closed spec fn pixfmt_view(&self) -> Pixfmt {
        self.pixfmt
    }

    /// The width in pixels.
    pub closed spec fn width_view(&self) -> usize {
        self.width
    }

    /// The height in rows.
    pub closed spec fn height_view(&self) -> usize {
        self.height
    }

    /// The stride of each plane, in bytes.
    pub closed spec fn stride_view(&self) -> Seq<usize> {
        self.stride@
    }

    /// Wraps `data` as one plane whose stride is the byte length divided by the number of rows.
    pub fn new(data: &'a [u8], pixfmt: Pixfmt, width: usize, height: usize) -> (pb: Self)
        requires
            height > 0,
        ensures
            pb.data_view() == data@,
            pb.pixfmt_view() == pixfmt,
            pb.width_view() == width,
            pb.height_view() == height,
            pb.stride_view() == seq![(data@.len() / (height as nat)) as usize],
    {
        let stride0 = data.len() / height;
        let mut stride = Vec::new();
        stride.push(stride0);
        PixelBuffer { data, pixfmt, width, height, stride }
    }

    /// A BGRA buffer.
    #[allow(non_snake_case)]
    pub fn with_BGRA(data: &'a [u8], width: usize, height: usize) -> (pb: Self)
        requires
            height > 0,
        ensures
            pb.data_view() == data@,
            pb.pixfmt_view() == Pixfmt::BGRA,
            pb.width_view() == width,
            pb.height_view() == height,
            pb.stride_view() == seq![(data@.len() / (height as nat)) as usize],
    {
        Self::new(data, Pixfmt::BGRA, width, height)
    }

    /// The pixel bytes.
    pub fn data(&self) -> (d: &[u8])
        ensures
            d@ == self.data_view(),
    {
        self.data
    }

    /// The width in pixels.
    pub fn width(&self) -> (w: usize)
        ensures
            w == self.width_view(),
    {
        self.width
    }

    /// The height in rows.
    pub fn height(&self) -> (h: usize)
        ensures
            h == self.height_view(),
    {
        self.height
    }

    /// A copy of the plane strides.
    pub fn stride(&self) -> (s: Vec<usize>)
        ensures
            s@ == self.stride_view(),
    {
        self.stride.clone()
    }

    /// The pixel layout.
    pub fn pixfmt(&self) -> (p: Pixfmt)
        ensures
            p == self.pixfmt_view(),
    {
        self.pixfmt
    }
}

} // verus!

verus! {

/// A captured frame.
#[derive(Debug)]
pub enum Frame<'a> {
    /// Pixels in memory.
    PixelBuffer(PixelBuffer<'a>),
}

} // verus!
