/* Hands the Escape key to the first layer that wants it. */
(function () {
if (window.__inEsc) { return; }
window.__inEsc = {
    resolvers: [],
    register: function (priority, fn) {
        window.__inEsc.resolvers.push({ priority: priority, fn: fn });
        window.__inEsc.resolvers.sort(function (a, b) { return b.priority - a.priority; });
    }
};
document.addEventListener('keydown', function (e) {
    if (e.key !== 'Escape') { return; }
    for (var i = 0; i < window.__inEsc.resolvers.length; i++) {
        if (window.__inEsc.resolvers[i].fn(e)) {
            e.preventDefault();
            e.stopImmediatePropagation();
            return;
        }
    }
}, true);
})();
